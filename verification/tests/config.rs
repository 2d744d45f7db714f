use file_logger::config::{find_entry, find_flag, find_text};
use file_logger::{
    ConfigEntry, ConfigValue, Error, FileTarget, Formatter, LogLevelFilter, Logger, LoggerBuilder, OnError,
};

fn entry(key: &str, value: ConfigValue) -> ConfigEntry {
    ConfigEntry { key: key.to_owned(), value }
}

fn text(key: &str, value: &str) -> ConfigEntry {
    entry(key, ConfigValue::Str(value.to_owned()))
}

fn flag(key: &str, value: bool) -> ConfigEntry {
    entry(key, ConfigValue::Bool(value))
}

fn built(table: Vec<ConfigEntry>) -> Logger<FileTarget> {
    LoggerBuilder::from_config_toml(table).ok().unwrap().build()
}

fn refused(table: Vec<ConfigEntry>) -> bool {
    match LoggerBuilder::from_config_toml(table) {
        Err(Error::Config) => true,
        _ => false,
    }
}

fn refused_text(document: &str) -> bool {
    match LoggerBuilder::from_config_str(document) {
        Err(Error::Config) => true,
        _ => false,
    }
}

#[test]
fn missing_file_is_a_config_error() {
    assert!(refused(vec![]));
    assert!(refused(vec![text("level", "Warn"), text("tag", "disk"), flag("append", true)]));
    assert!(refused_text("level = \"Warn\"\n"));
    assert!(refused_text(""));
}

#[test]
fn file_must_be_a_string() {
    assert!(refused(vec![flag("file", true)]));
    assert!(refused(vec![entry("file", ConfigValue::Other)]));
    assert!(refused_text("file = 3\n"));
}

#[test]
fn file_alone_gives_the_defaults() {
    let sink = built(vec![text("file", "app.log")]);
    assert_eq!(*sink.file(), FileTarget { path: "app.log".to_owned(), append: false });
    assert_eq!(sink.level(), LogLevelFilter::Trace);
    assert!(sink.tag().is_none());
    assert_eq!(*sink.format(), Formatter::default());
    assert_eq!(sink.on_error(), OnError::Panic);
}

#[test]
fn append_is_false_unless_set_to_true() {
    assert!(built(vec![text("file", "a"), flag("append", true)]).file().append);
    assert!(!built(vec![text("file", "a"), flag("append", false)]).file().append);
    assert!(!built(vec![text("file", "a"), text("append", "true")]).file().append);
    assert!(!built(vec![text("file", "a"), entry("append", ConfigValue::Other)]).file().append);
}

#[test]
fn every_recognised_key_is_read() {
    let sink = built(vec![
        flag("append", true),
        text("file", "test/test.log"),
        text("format", "{level}: {message}"),
        text("level", "Warn"),
        text("tag", "te.t"),
    ]);
    assert_eq!(*sink.file(), FileTarget { path: "test/test.log".to_owned(), append: true });
    assert_eq!(sink.level(), LogLevelFilter::Warn);
    assert_eq!(sink.tag().unwrap().as_str(), "te.t");
    assert_eq!(*sink.format(), Formatter::compile("{level}: {message}").unwrap());
    assert_eq!(sink.on_error(), OnError::Panic);
}

#[test]
fn each_level_name_is_accepted() {
    let names = [
        ("Off", LogLevelFilter::Off),
        ("Error", LogLevelFilter::Error),
        ("Warn", LogLevelFilter::Warn),
        ("Info", LogLevelFilter::Info),
        ("Debug", LogLevelFilter::Debug),
        ("Trace", LogLevelFilter::Trace),
    ];
    for (name, level) in names {
        assert_eq!(built(vec![text("file", "a"), text("level", name)]).level(), level);
    }
}

#[test]
fn invalid_level_is_a_config_error() {
    assert!(refused(vec![text("file", "a"), text("level", "Verbose")]));
    assert!(refused(vec![text("file", "a"), text("level", "warn")]));
    assert!(refused(vec![text("file", "a"), text("level", "")]));
}

#[test]
fn level_that_is_no_string_is_not_read() {
    assert_eq!(built(vec![text("file", "a"), flag("level", true)]).level(), LogLevelFilter::Trace);
}

#[test]
fn tag_that_does_not_compile_is_a_config_error() {
    assert!(refused(vec![text("file", "a"), text("tag", "(")]));
    assert!(refused(vec![text("file", "a"), text("tag", "[a-")]));
    assert!(refused(vec![text("file", "a"), text("tag", "a{2,1}")]));
}

#[test]
fn format_that_does_not_compile_is_a_config_error() {
    assert!(refused(vec![text("file", "a"), text("format", "{bogus}")]));
    assert!(refused(vec![text("file", "a"), text("format", "{level")]));
    assert!(refused(vec![text("file", "a"), text("format", "{level }")]));
}

#[test]
fn unrecognised_keys_are_ignored() {
    let sink = built(vec![
        text("colour", "red"),
        text("file", "a"),
        flag("rotate", true),
        entry("limit", ConfigValue::Other),
    ]);
    assert_eq!(*sink.file(), FileTarget { path: "a".to_owned(), append: false });
}

#[test]
fn first_entry_of_a_key_is_the_one_read() {
    let sink = built(vec![text("file", "first"), text("file", "second"), flag("file", true)]);
    assert_eq!(sink.file().path, "first");
    assert!(refused(vec![flag("file", true), text("file", "second")]));
}

#[test]
fn document_is_read_as_toml() {
    let document = r#"
file = "test/test.log"
tag = "test"
level = "Warn"
format = "[{level}] {timestamp} {module_path}:{file}:{line} - {message}"
"#;
    let sink = LoggerBuilder::from_config_str(document).ok().unwrap().build();
    assert_eq!(*sink.file(), FileTarget { path: "test/test.log".to_owned(), append: false });
    assert_eq!(sink.level(), LogLevelFilter::Warn);
    assert_eq!(sink.tag().unwrap().as_str(), "test");
    assert_eq!(*sink.format(), Formatter::default());
}

#[test]
fn document_may_set_append_and_hold_other_keys() {
    let document = "append = true\nfile = \"a.log\"\nsize = 10\nratio = 0.5\n[section]\nfile = \"b.log\"\n";
    let sink = LoggerBuilder::from_config_str(document).ok().unwrap().build();
    assert_eq!(*sink.file(), FileTarget { path: "a.log".to_owned(), append: true });
}

#[test]
fn document_with_an_invalid_value_is_a_config_error() {
    assert!(refused_text("file = \"a\"\nlevel = \"Loud\"\n"));
    assert!(refused_text("file = \"a\"\ntag = \"(\"\n"));
    assert!(refused_text("file = \"a\"\nformat = \"{bogus}\"\n"));
}

#[test]
fn text_that_is_no_toml_is_a_config_error() {
    assert!(refused_text("file = "));
    assert!(refused_text("file \"a\""));
    assert!(refused_text("file = \"a\"\nfile = \"b\"\n"));
}

#[test]
fn file_builders_differ_in_the_way_the_file_is_opened() {
    let fresh = LoggerBuilder::new_file("a.log").build();
    assert_eq!(*fresh.file(), FileTarget { path: "a.log".to_owned(), append: false });
    let kept = LoggerBuilder::append_file("a.log").build();
    assert_eq!(*kept.file(), FileTarget { path: "a.log".to_owned(), append: true });
    for sink in [fresh, kept] {
        assert_eq!(sink.level(), LogLevelFilter::Trace);
        assert!(sink.tag().is_none());
        assert_eq!(*sink.format(), Formatter::default());
        assert_eq!(sink.on_error(), OnError::Panic);
    }
}

#[test]
fn entries_are_found_by_key_and_kind() {
    let table = vec![
        text("file", "a.log"),
        flag("append", true),
        entry("size", ConfigValue::Other),
        text("append", "later"),
    ];
    assert_eq!(find_entry(&table, "file"), Some(&ConfigValue::Str("a.log".to_owned())));
    assert_eq!(find_entry(&table, "append"), Some(&ConfigValue::Bool(true)));
    assert_eq!(find_entry(&table, "size"), Some(&ConfigValue::Other));
    assert_eq!(find_entry(&table, "level"), None);
    assert_eq!(find_entry(&table, "fil"), None);
    assert_eq!(find_entry(&table, "File"), None);
    assert_eq!(find_text(&table, "file"), Some(&"a.log".to_owned()));
    assert_eq!(find_text(&table, "append"), None);
    assert_eq!(find_text(&table, "size"), None);
    assert_eq!(find_text(&table, "tag"), None);
    assert_eq!(find_flag(&table, "append"), Some(true));
    assert_eq!(find_flag(&table, "file"), None);
    assert_eq!(find_flag(&table, "size"), None);
    assert_eq!(find_flag(&table, "missing"), None);
    assert_eq!(find_entry(&Vec::new(), "file"), None);
}
