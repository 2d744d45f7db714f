//! Loggers described by a configuration: a flat mapping from keys to values.
//!
//! The keys `file`, `append`, `tag`, `level` and `format` are recognised; any other key is
//! ignored.

use vstd::prelude::*;
use vstd::utf8::encode_utf8;
use vstd::string::StringSliceAdditionalSpecFns;
use crate::error::Error;
use crate::format::Formatter;
use crate::grammar::{compiled, Token};
use crate::level::LogLevelFilter;
use crate::logger::{LoggerBuilder, OnError};
use crate::render::default_program;
use crate::tag::{compile_tag, pattern_language, tag_language};
use crate::text::same_text;

verus! {

/// A value of a configuration.
#[derive(Debug, Clone, PartialEq, Eq)]
pub enum ConfigValue {
    /// A string.
    Str(String),
    /// A boolean.
    Bool(bool),
    /// A value of any other kind.
    Other,
}

/// One entry of a configuration.
#[derive(Debug, Clone, PartialEq, Eq)]
pub struct ConfigEntry {
    /// The key, which is compared letter for letter.
    pub key: String,
    /// The value under the key.
    pub value: ConfigValue,
}

/// A file to log to, by its path and the way it is to be opened.
#[derive(Debug, Clone, PartialEq, Eq)]
pub struct FileTarget {
    /// The path of the file.
    pub path: String,
    /// Whether records are appended to what the file holds. Otherwise the file is created
    /// anew, and truncated where it exists.
    pub append: bool,
}

/// What a `ConfigValue` stands for.
pub enum Setting {
    /// A string, by its characters.
    Str(Seq<char>),
    /// A boolean.
    Bool(bool),
    /// A value of any other kind.
    Other,
}

impl View for ConfigValue {
    type V = Setting;

    open spec fn view(&self) -> Setting {
        match self {
            ConfigValue::Str(text) => Setting::Str(text@),
            ConfigValue::Bool(flag) => Setting::Bool(*flag),
            ConfigValue::Other => Setting::Other,
        }
    }
}

impl View for ConfigEntry {
    type V = (Seq<char>, Setting);

    open spec fn view(&self) -> (Seq<char>, Setting) {
        (self.key@, self.value@)
    }
}

/// The entries of a configuration, each by its view.
pub open spec fn entries(table: Seq<ConfigEntry>) -> Seq<(Seq<char>, Setting)> {
    table.map_values(|entry: ConfigEntry| entry@)
}

/// The position of the first entry with the given key at or after `from`; the number of entries
/// when there is none.
pub open spec fn position_of(table: Seq<(Seq<char>, Setting)>, key: Seq<char>, from: int) -> int
    decreases table.len() - from,
{
    if from < 0 || from >= table.len() {
        table.len() as int
    } else if table[from].0 == key {
        from
    } else {
        position_of(table, key, from + 1)
    }
}

/// The value of the first entry with the given key.
pub open spec fn lookup(table: Seq<(Seq<char>, Setting)>, key: Seq<char>) -> Option<Setting> {
    let at = position_of(table, key, 0);
    if 0 <= at < table.len() {
        Some(table[at].1)
    } else {
        None
    }
}

/// The string under the given key; `None` where the key is missing or holds no string.
pub open spec fn text_of(table: Seq<(Seq<char>, Setting)>, key: Seq<char>) -> Option<Seq<char>> {
    match lookup(table, key) {
        Some(Setting::Str(text)) => Some(text),
        _ => None,
    }
}

/// The boolean under the given key; `None` where the key is missing or holds no boolean.
pub open spec fn flag_of(table: Seq<(Seq<char>, Setting)>, key: Seq<char>) -> Option<bool> {
    match lookup(table, key) {
        Some(Setting::Bool(flag)) => Some(flag),
        _ => None,
    }
}

/// The logger that a valid configuration describes.
pub struct Plan {
    /// `file`: the path of the file to log to.
    pub path: Seq<char>,
    /// `append`: whether to append to the file; false where the key is not set.
    pub append: bool,
    /// `tag`: the texts in which the tag pattern finds a match; none where the key is not set.
    pub tag: Option<Set<Seq<char>>>,
    /// `level`: the threshold; the most permissive where the key is not set.
    pub level: LogLevelFilter,
    /// `format`: the compiled format spec; the default program where the key is not set.
    pub program: Seq<Token>,
}

/// The tag that a configuration asks for, or `Err` where its pattern does not compile.
pub open spec fn planned_tag(table: Seq<(Seq<char>, Setting)>) -> Result<Option<Set<Seq<char>>>, ()> {
    match text_of(table, "tag"@) {
        None => Ok(None),
        Some(pattern) => match pattern_language(pattern) {
            Some(texts) => Ok(Some(texts)),
            None => Err(()),
        },
    }
}

/// The threshold that a configuration asks for, or `Err` where it names no level.
pub open spec fn planned_level(table: Seq<(Seq<char>, Setting)>) -> Result<LogLevelFilter, ()> {
    match text_of(table, "level"@) {
        None => Ok(LogLevelFilter::Trace),
        Some(name) => match LogLevelFilter::named(name) {
            Some(level) => Ok(level),
            None => Err(()),
        },
    }
}

/// The program that a configuration asks for, or `Err` where its format spec does not compile.
pub open spec fn planned_program(table: Seq<(Seq<char>, Setting)>) -> Result<Seq<Token>, ()> {
    match text_of(table, "format"@) {
        None => Ok(default_program()),
        Some(spec) => match compiled(encode_utf8(spec)) {
            Ok(program) => Ok(program),
            Err(_) => Err(()),
        },
    }
}

/// The logger that a configuration describes. A configuration is valid where `file` holds a
/// string and each of `tag`, `level` and `format` that holds a string holds a valid one.
pub open spec fn plan(table: Seq<(Seq<char>, Setting)>) -> Option<Plan> {
    match (text_of(table, "file"@), planned_tag(table), planned_level(table), planned_program(table)) {
        (Some(path), Ok(tag), Ok(level), Ok(program)) => Some(
            Plan { path, append: flag_of(table, "append"@) == Some(true), tag, level, program },
        ),
        _ => None,
    }
}

/// Whether the key is one of those that a configuration is read by.
pub open spec fn recognised(key: Seq<char>) -> bool {
    key == "file"@ || key == "append"@ || key == "tag"@ || key == "level"@ || key == "format"@
}

/// `position_of` gives a position in the table, or its length.
proof fn lemma_position_of(table: Seq<(Seq<char>, Setting)>, key: Seq<char>, from: int)
    requires
        0 <= from <= table.len(),
    ensures
        from <= position_of(table, key, from) <= table.len(),
    decreases table.len() - from,
{
    if from < table.len() && table[from].0 != key {
        lemma_position_of(table, key, from + 1);
    }
}

/// An entry under another key, added behind the others, moves no entry under `key`.
proof fn lemma_position_skips_other_keys(
    table: Seq<(Seq<char>, Setting)>,
    entry: (Seq<char>, Setting),
    key: Seq<char>,
    from: int,
)
    requires
        entry.0 != key,
        0 <= from <= table.len(),
    ensures
        position_of(table.push(entry), key, from) == if position_of(table, key, from) < table.len() {
            position_of(table, key, from)
        } else {
            table.len() as int + 1
        },
    decreases table.len() - from,
{
    let longer = table.push(entry);
    if from < table.len() {
        assert(longer[from] == table[from]);
        if table[from].0 != key {
            lemma_position_skips_other_keys(table, entry, key, from + 1);
        }
    } else {
        assert(longer[from] == entry);
        assert(position_of(longer, key, from + 1) == longer.len());
    }
}

/// An entry that is added behind the others changes nothing under any other key.
pub proof fn lemma_lookup_skips_other_keys(
    table: Seq<(Seq<char>, Setting)>,
    entry: (Seq<char>, Setting),
    key: Seq<char>,
)
    requires
        entry.0 != key,
    ensures
        lookup(table.push(entry), key) == lookup(table, key),
{
    lemma_position_skips_other_keys(table, entry, key, 0);
    lemma_position_of(table, key, 0);
    let at = position_of(table, key, 0);
    if at < table.len() {
        assert(table.push(entry)[at] == table[at]);
    }
}

/// Keys that are not recognised are ignored: a configuration describes the same logger with
/// and without an entry under such a key.
pub proof fn lemma_unrecognised_key_is_ignored(
    table: Seq<(Seq<char>, Setting)>,
    entry: (Seq<char>, Setting),
)
    requires
        !recognised(entry.0),
    ensures
        plan(table.push(entry)) == plan(table),
{
    lemma_lookup_skips_other_keys(table, entry, "file"@);
    lemma_lookup_skips_other_keys(table, entry, "append"@);
    lemma_lookup_skips_other_keys(table, entry, "tag"@);
    lemma_lookup_skips_other_keys(table, entry, "level"@);
    lemma_lookup_skips_other_keys(table, entry, "format"@);
}

/// The entries of the top-level table of a TOML document, in the order of their keys, or
/// `None` where the text is no TOML document. A value that is neither a string nor a boolean
/// is `Setting::Other`.
pub uninterp spec fn toml_table(text: Seq<char>) -> Option<Seq<(Seq<char>, Setting)>>;

/// Runs `toml::Parser::parse` on the text and copies the entries of the table it gives.
///
/// Trusted: the parser returns, and what it returns depends on the text alone.
#[verifier::external_body]
pub(crate) fn parse_toml(text: &str) -> (table: Option<Vec<ConfigEntry>>)
    ensures
        table is Some <==> toml_table(text@) is Some,
        table matches Some(found) ==> toml_table(text@) == Some(entries(found@)),
{
    let parsed = toml::Parser::new(text).parse()?;
    Some(parsed.into_iter().map(|(key, value)| ConfigEntry {
        key,
        value: match value {
            toml::Value::String(text) => ConfigValue::Str(text),
            toml::Value::Boolean(flag) => ConfigValue::Bool(flag),
            toml::Value::Integer(_) => ConfigValue::Other,
            toml::Value::Float(_) => ConfigValue::Other,
            toml::Value::Datetime(_) => ConfigValue::Other,
            toml::Value::Array(_) => ConfigValue::Other,
            toml::Value::Table(_) => ConfigValue::Other,
        },
    }).collect())
}

/// Finds the first entry with the given key.
pub fn find_entry<'a>(table: &'a Vec<ConfigEntry>, key: &str) -> (value: Option<&'a ConfigValue>)
    ensures
        match value {
            Some(found) => lookup(entries(table@), key@) == Some(found@),
            None => lookup(entries(table@), key@) is None,
        },
{
    let mut i: usize = 0;
    while i < table.len()
        invariant
            i <= table@.len(),
            position_of(entries(table@), key@, 0) == position_of(entries(table@), key@, i as int),
        decreases table@.len() - i,
    {
        assert(entries(table@)[i as int] == table@[i as int]@);
        if same_text(table[i].key.as_str(), key) {
            return Some(&table[i].value);
        }
        i = i + 1;
    }
    None
}

/// The string under the given key, if the key is set and holds one.
pub fn find_text<'a>(table: &'a Vec<ConfigEntry>, key: &str) -> (text: Option<&'a String>)
    ensures
        match text {
            Some(found) => text_of(entries(table@), key@) == Some(found@),
            None => text_of(entries(table@), key@) is None,
        },
{
    match find_entry(table, key) {
        Some(ConfigValue::Str(text)) => Some(text),
        _ => None,
    }
}

/// The boolean under the given key, if the key is set and holds one.
pub fn find_flag(table: &Vec<ConfigEntry>, key: &str) -> (flag: Option<bool>)
    ensures
        flag == flag_of(entries(table@), key@),
{
    match find_entry(table, key) {
        Some(ConfigValue::Bool(flag)) => Some(*flag),
        _ => None,
    }
}

impl LoggerBuilder<FileTarget> {
    /// Whether the builder is the one that a plan describes.
    pub open spec fn follows(&self, plan: Plan) -> bool {
        &&& self.destination().path@ == plan.path
        &&& self.destination().append == plan.append
        &&& tag_language(self.tag_set()) == plan.tag
        &&& self.threshold() == plan.level
        &&& self.program() == plan.program
        &&& self.policy() == OnError::Panic
    }

    /// Starts a builder that logs to the file at `p`, created anew.
    pub fn new_file(p: &str) -> (builder: Self)
        ensures
            builder.destination().path@ == p@,
            !builder.destination().append,
            builder.threshold() == LogLevelFilter::Trace,
            builder.tag_set() is None,
            builder.program() == default_program(),
            builder.policy() == OnError::Panic,
    {
        LoggerBuilder::file(FileTarget { path: p.to_owned(), append: false })
    }

    /// Starts a builder that appends to the file at `p`.
    pub fn append_file(p: &str) -> (builder: Self)
        ensures
            builder.destination().path@ == p@,
            builder.destination().append,
            builder.threshold() == LogLevelFilter::Trace,
            builder.tag_set() is None,
            builder.program() == default_program(),
            builder.policy() == OnError::Panic,
    {
        LoggerBuilder::file(FileTarget { path: p.to_owned(), append: true })
    }

    /// Builds from a configuration mapping.
    ///
    /// Fails with `Error::Config` exactly where the configuration is not valid: `file` is
    /// missing or holds no string, `tag` holds a pattern that does not compile, `level` holds
    /// a string that names no level, or `format` holds a format spec that does not compile.
    pub fn from_config_toml(v: Vec<ConfigEntry>) -> (r: Result<Self, Error>)
        ensures
            match r {
                Ok(builder) => plan(entries(v@)) matches Some(p) && builder.follows(p),
                Err(e) => e == Error::Config && plan(entries(v@)) is None,
            },
    {
        let f = match find_text(&v, "file") {
            Some(path) => match find_flag(&v, "append") {
                Some(true) => Self::append_file(path.as_str()),
                Some(false) | None => Self::new_file(path.as_str()),
            },
            None => {
                return Err(Error::Config);
            },
        };
        let f = match find_text(&v, "tag") {
            Some(pattern) => match f.try_tag(compile_tag(pattern.as_str())) {
                Ok(tagged) => tagged,
                Err(e) => {
                    return Err(e);
                },
            },
            None => f,
        };
        let f = match find_text(&v, "level") {
            Some(name) => match LogLevelFilter::from_name(name.as_str()) {
                Some(level) => f.level(level),
                None => {
                    return Err(Error::Config);
                },
            },
            None => f,
        };
        let f = match find_text(&v, "format") {
            Some(spec) => match Formatter::compile(spec.as_str()) {
                Ok(program) => f.format(program),
                Err(_) => {
                    return Err(Error::Config);
                },
            },
            None => f,
        };
        Ok(f)
    }

    /// Builds from a configuration written as a TOML document.
    ///
    /// Fails with `Error::Config` exactly where the text is no TOML document or the
    /// configuration it holds is not valid.
    pub fn from_config_str(s: &str) -> (r: Result<Self, Error>)
        ensures
            match r {
                Ok(builder) => toml_table(s@) matches Some(table) && plan(table) matches Some(p)
                    && builder.follows(p),
                Err(e) => e == Error::Config && !(toml_table(s@) matches Some(table) && plan(table)
                    is Some),
            },
    {
        match parse_toml(s) {
            Some(v) => Self::from_config_toml(v),
            None => Err(Error::Config),
        }
    }
}

} // verus!
