use file_logger::{FormatError, FormatSpecifier, Formatter};

fn literal(text: &str) -> FormatSpecifier {
    FormatSpecifier::Str(text.to_owned())
}

fn program(directives: Vec<FormatSpecifier>) -> Formatter {
    let mut program = Formatter::new();
    for directive in directives {
        program.push(directive);
    }
    program
}

fn failure(spec: &str) -> FormatError {
    Formatter::compile(spec).unwrap_err()
}

#[test]
fn bogus_keyword_is_reported_at_offset_one() {
    let e = failure("{bogus}");
    assert_eq!(e.position, 1);
    assert_eq!(e.format, "{bogus}");
}

#[test]
fn unknown_keyword_is_reported_at_the_position_of_its_brace() {
    assert_eq!(failure("ab{bogus}").position, 3);
    assert_eq!(failure("{level} {nope} {message}").position, 9);
    assert_eq!(failure("{Level}").position, 1);
    assert_eq!(failure("{}").position, 1);
}

#[test]
fn spec_that_ends_inside_a_keyword_has_no_keyword() {
    assert_eq!(failure("{").position, 1);
    assert_eq!(failure("abc{").position, 4);
    assert_eq!(failure("{lev").position, 1);
}

#[test]
fn unterminated_directive_is_reported_at_zero() {
    assert_eq!(failure("{level").position, 0);
    assert_eq!(failure("abc{message").position, 0);
    assert_eq!(failure("abc{timestamp").position, 0);
    assert_eq!(failure("abc{timestamp:").position, 0);
    assert_eq!(failure("abc{timestamp:%Y-%m-%d").position, 0);
}

#[test]
fn trailing_input_is_reported_as_length_minus_parsed_prefix() {
    assert_eq!(failure("{levelx}").position, 8);
    assert_eq!(failure("ab{level!}cd").position, 10);
    assert_eq!(failure("{message}{line:3}").position, 8);
    assert_eq!(failure("{timestamp %F}").position, 14);
    assert_eq!(failure("x{file{").position, 6);
}

#[test]
fn failure_keeps_the_spec() {
    let e = failure("ab{level!}cd");
    assert_eq!(e, FormatError { format: "ab{level!}cd".to_owned(), position: 10 });
}

#[test]
fn empty_spec_is_the_empty_program() {
    assert_eq!(Formatter::compile("").unwrap(), Formatter::new());
}

#[test]
fn each_keyword_compiles_to_its_directive() {
    assert_eq!(Formatter::compile("{level}").unwrap(), program(vec![FormatSpecifier::Level]));
    assert_eq!(Formatter::compile("{message}").unwrap(), program(vec![FormatSpecifier::Message]));
    assert_eq!(Formatter::compile("{file}").unwrap(), program(vec![FormatSpecifier::File]));
    assert_eq!(
        Formatter::compile("{module_path}").unwrap(),
        program(vec![FormatSpecifier::ModulePath])
    );
    assert_eq!(Formatter::compile("{line}").unwrap(), program(vec![FormatSpecifier::Line]));
    assert_eq!(
        Formatter::compile("{timestamp}").unwrap(),
        program(vec![FormatSpecifier::Timestamp("%F %T%z".to_owned())])
    );
}

#[test]
fn level_and_message() {
    let expected = program(vec![FormatSpecifier::Level, literal("|"), FormatSpecifier::Message]);
    assert_eq!(Formatter::compile("{level}|{message}").unwrap(), expected);
}

#[test]
fn every_keyword_once_between_literals() {
    let compiled = Formatter::compile("a{level}b{message}c{file}d{module_path}e{line}f{timestamp}g");
    let expected = program(vec![
        literal("a"),
        FormatSpecifier::Level,
        literal("b"),
        FormatSpecifier::Message,
        literal("c"),
        FormatSpecifier::File,
        literal("d"),
        FormatSpecifier::ModulePath,
        literal("e"),
        FormatSpecifier::Line,
        literal("f"),
        FormatSpecifier::Timestamp("%F %T%z".to_owned()),
        literal("g"),
    ]);
    assert_eq!(compiled.unwrap(), expected);
}

#[test]
fn adjacent_directives_have_no_literal_between_them() {
    let expected = program(vec![FormatSpecifier::File, FormatSpecifier::Line]);
    assert_eq!(Formatter::compile("{file}{line}").unwrap(), expected);
}

#[test]
fn timestamp_takes_a_pattern_of_its_own() {
    let expected = program(vec![
        literal("at "),
        FormatSpecifier::Timestamp("%Y-%m-%d %H:%M".to_owned()),
        literal("!"),
    ]);
    assert_eq!(Formatter::compile("at {timestamp:%Y-%m-%d %H:%M}!").unwrap(), expected);
}

#[test]
fn timestamp_pattern_may_be_empty_or_hold_braces_that_open() {
    assert_eq!(
        Formatter::compile("{timestamp:}").unwrap(),
        program(vec![FormatSpecifier::Timestamp(String::new())])
    );
    assert_eq!(
        Formatter::compile("{timestamp:{%H}").unwrap(),
        program(vec![FormatSpecifier::Timestamp("{%H".to_owned())])
    );
}

#[test]
fn closing_brace_is_literal_text() {
    assert_eq!(Formatter::compile("a}b").unwrap(), program(vec![literal("a}b")]));
    assert_eq!(
        Formatter::compile("{level}}").unwrap(),
        program(vec![FormatSpecifier::Level, literal("}")])
    );
}

#[test]
fn literal_text_may_hold_any_characters() {
    let expected = program(vec![literal("h\u{e9}llo \u{2713} "), FormatSpecifier::Level, literal(" \u{1f600}")]);
    assert_eq!(Formatter::compile("h\u{e9}llo \u{2713} {level} \u{1f600}").unwrap(), expected);
}

#[test]
fn offsets_count_bytes() {
    assert_eq!(failure("\u{e9}{bogus}").position, 3);
    assert_eq!(failure("\u{e9}{level!}").position, 8);
}

#[test]
fn compiling_twice_gives_equal_programs() {
    let spec = "[{level}] {timestamp:%T} {module_path}:{file}:{line} - {message}";
    assert_eq!(Formatter::compile(spec).unwrap(), Formatter::compile(spec).unwrap());
    assert_eq!(Formatter::compile("{nope}").unwrap_err(), Formatter::compile("{nope}").unwrap_err());
}

#[test]
fn default_program_is_the_compiled_default_spec() {
    let spec = "[{level}] {timestamp} {module_path}:{file}:{line} - {message}";
    assert_eq!(Formatter::compile(spec).unwrap(), Formatter::default());
}

#[test]
fn default_program_holds_twelve_directives_in_order() {
    let expected = program(vec![
        literal("["),
        FormatSpecifier::Level,
        literal("] "),
        FormatSpecifier::Timestamp("%F %T%z".to_owned()),
        literal(" "),
        FormatSpecifier::ModulePath,
        literal(":"),
        FormatSpecifier::File,
        literal(":"),
        FormatSpecifier::Line,
        literal(" - "),
        FormatSpecifier::Message,
    ]);
    assert_eq!(Formatter::default(), expected);
}

#[test]
fn parse_compiles() {
    let parsed: Formatter = "{level}|{message}".parse().unwrap();
    assert_eq!(parsed, Formatter::compile("{level}|{message}").unwrap());
    let failed: Result<Formatter, FormatError> = "{bogus}".parse();
    assert_eq!(failed.unwrap_err().position, 1);
}

#[test]
fn programs_differ_by_kind_text_order_and_length() {
    assert_ne!(program(vec![FormatSpecifier::Level]), program(vec![FormatSpecifier::Line]));
    assert_ne!(program(vec![literal("a")]), program(vec![literal("b")]));
    assert_ne!(
        program(vec![FormatSpecifier::Timestamp("%F".to_owned())]),
        program(vec![FormatSpecifier::Timestamp("%T".to_owned())])
    );
    assert_ne!(program(vec![literal("%F")]), program(vec![FormatSpecifier::Timestamp("%F".to_owned())]));
    assert_ne!(
        program(vec![FormatSpecifier::File, FormatSpecifier::Line]),
        program(vec![FormatSpecifier::Line, FormatSpecifier::File])
    );
    assert_ne!(program(vec![FormatSpecifier::File]), program(vec![FormatSpecifier::File, FormatSpecifier::File]));
    assert_eq!(FormatSpecifier::Message, FormatSpecifier::Message);
    assert_ne!(FormatSpecifier::Message, FormatSpecifier::ModulePath);
}
