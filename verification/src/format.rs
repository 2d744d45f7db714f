//! Compiled format programs: the compiler from format specs, and the render engine.

use vstd::prelude::*;
use vstd::std_specs::cmp::PartialEqSpec;
use vstd::string::StringSliceAdditionalSpecFns;
use vstd::utf8::*;
use crate::clock::{strftime, Timestamp};
use crate::error::{Error, FormatError, TimeFormatError};
use crate::grammar::{compiled, lemma_token_advances, scan, Keyword, Scan, Token};
use crate::reader::{flaw_position, read_token};
use crate::record::LogRecord;
use crate::render::{
    completes, default_program, expanded, expansion, faithful, first_failure, lemma_first_failure,
    lemma_writes_exactly, line, program_zone_free, rendered, token_zone_free, writes, NEWLINE,
};
use crate::text::{decimal_text, lemma_ascii_encoding, push_text, same_text};

verus! {

/// One rendering instruction of a compiled program.
#[derive(Debug, Clone, Eq)]
pub enum FormatSpecifier {
    /// Text that is copied as it stands.
    Str(String),
    /// The severity of the event.
    Level,
    /// The time of the event, formatted by a strftime pattern.
    Timestamp(String),
    /// The module that logged the event.
    ModulePath,
    /// The source file that logged the event.
    File,
    /// The source line that logged the event.
    Line,
    /// The message of the event.
    Message,
}

impl View for FormatSpecifier {
    type V = Token;

    open spec fn view(&self) -> Token {
        match self {
            FormatSpecifier::Str(text) => Token::Literal(encode_utf8(text@)),
            FormatSpecifier::Level => Token::Level,
            FormatSpecifier::Timestamp(pattern) => Token::Timestamp(encode_utf8(pattern@)),
            FormatSpecifier::ModulePath => Token::ModulePath,
            FormatSpecifier::File => Token::File,
            FormatSpecifier::Line => Token::Line,
            FormatSpecifier::Message => Token::Message,
        }
    }
}

/// Writes what formatting a time gave: appends the text to `f`, or fails with the reason for
/// which the pattern was rejected and leaves `f` as it was.
pub fn write_stamp(f: &mut Vec<u8>, stamp: Result<String, time::ParseError>) -> (r: Result<(), Error>)
    ensures
        match stamp {
            Ok(text) => r is Ok && final(f)@ == old(f)@ + encode_utf8(text@),
            Err(reason) => r matches Err(e) && e == Error::Parse(TimeFormatError::Pattern(reason))
                && final(f)@ == old(f)@,
        },
{
    match stamp {
        Ok(text) => {
            push_text(f, text.as_str());
            Ok(())
        },
        Err(reason) => Err(Error::Parse(TimeFormatError::Pattern(reason))),
    }
}

impl FormatSpecifier {
    /// A literal directive that copies `text`.
    fn literal(text: &str) -> (directive: FormatSpecifier)
        ensures
            directive@ == Token::Literal(encode_utf8(text@)),
    {
        FormatSpecifier::Str(text.to_owned())
    }

    /// Expands the directive for one event and one captured time, and appends the text to `f`.
    ///
    /// Every directive but a timestamp takes its text from the event as it stands and cannot
    /// fail. A timestamp fails, and writes nothing, where a part of the time lies outside its
    /// range or the pattern is rejected.
    pub fn format(&self, f: &mut Vec<u8>, record: &LogRecord, datetime: &Timestamp) -> (r: Result<
        (),
        Error,
    >)
        ensures
            r is Ok <==> expansion(self@, record, *datetime) is Some,
            r is Ok && token_zone_free(self@, *datetime) ==> final(f)@ == old(f)@ + expansion(
                self@,
                record,
                *datetime,
            )->0,
            r is Ok ==> exists|text: Seq<char>| final(f)@ == old(f)@ + encode_utf8(text),
            r is Err ==> final(f)@ == old(f)@,
            r matches Err(e) ==> e matches Error::Parse(cause) && (cause is Instant
                <==> !datetime.is_valid()),
    {
        broadcast use encode_utf8_decode_utf8;
        match self {
            FormatSpecifier::Str(text) => push_text(f, text.as_str()),
            FormatSpecifier::Level => push_text(f, record.level.as_str()),
            FormatSpecifier::Timestamp(pattern) => {
                if !datetime.check() {
                    return Err(Error::Parse(TimeFormatError::Instant));
                }
                return write_stamp(f, strftime(pattern.as_str(), datetime));
            },
            FormatSpecifier::ModulePath => push_text(f, record.module.as_str()),
            FormatSpecifier::File => push_text(f, record.file.as_str()),
            FormatSpecifier::Line => push_text(f, decimal_text(record.line as u64).as_str()),
            FormatSpecifier::Message => push_text(f, record.message.as_str()),
        }
        Ok(())
    }
}

/// A compiled format program: directives in the order in which they are rendered.
#[derive(Debug, Clone, Eq)]
pub struct Formatter {
    f: Vec<FormatSpecifier>,
}

impl View for Formatter {
    type V = Seq<Token>;

    closed spec fn view(&self) -> Seq<Token> {
        self.f@.map_values(|d: FormatSpecifier| d@)
    }
}

impl PartialEq for FormatSpecifier {
    /// Two directives are equal where they are of one kind and hold the same text.
    fn eq(&self, other: &Self) -> (equal: bool) {
        broadcast use encode_utf8_decode_utf8;
        proof {
            if let (FormatSpecifier::Str(a), FormatSpecifier::Str(b)) = (self, other) {
                assert(encode_utf8(a@) == encode_utf8(b@) ==> decode_utf8(encode_utf8(a@))
                    == decode_utf8(encode_utf8(b@)));
            }
            if let (FormatSpecifier::Timestamp(a), FormatSpecifier::Timestamp(b)) = (self, other) {
                assert(encode_utf8(a@) == encode_utf8(b@) ==> decode_utf8(encode_utf8(a@))
                    == decode_utf8(encode_utf8(b@)));
            }
        }
        match (self, other) {
            (FormatSpecifier::Str(a), FormatSpecifier::Str(b)) => same_text(a.as_str(), b.as_str()),
            (FormatSpecifier::Level, FormatSpecifier::Level) => true,
            (FormatSpecifier::Timestamp(a), FormatSpecifier::Timestamp(b)) => same_text(
                a.as_str(),
                b.as_str(),
            ),
            (FormatSpecifier::ModulePath, FormatSpecifier::ModulePath) => true,
            (FormatSpecifier::File, FormatSpecifier::File) => true,
            (FormatSpecifier::Line, FormatSpecifier::Line) => true,
            (FormatSpecifier::Message, FormatSpecifier::Message) => true,
            _ => false,
        }
    }
}

impl vstd::std_specs::cmp::PartialEqSpecImpl for FormatSpecifier {
    open spec fn obeys_eq_spec() -> bool {
        true
    }

    open spec fn eq_spec(&self, other: &Self) -> bool {
        self@ == other@
    }
}

impl PartialEq for Formatter {
    /// Two programs are equal where they hold equal directives in the same order.
    fn eq(&self, other: &Self) -> (equal: bool) {
        if self.f.len() != other.f.len() {
            assert(self@.len() != other@.len());
            return false;
        }
        let mut i: usize = 0;
        while i < self.f.len()
            invariant
                self.f@.len() == other.f@.len(),
                i <= self.f@.len(),
                forall|j: int| 0 <= j < i ==> self@[j] == other@[j],
            decreases self.f@.len() - i,
        {
            if !(self.f[i] == other.f[i]) {
                assert(self@[i as int] != other@[i as int]);
                return false;
            }
            assert(self@[i as int] == other@[i as int]);
            i = i + 1;
        }
        assert(self@ =~= other@);
        true
    }
}

impl vstd::std_specs::cmp::PartialEqSpecImpl for Formatter {
    open spec fn obeys_eq_spec() -> bool {
        true
    }

    open spec fn eq_spec(&self, other: &Self) -> bool {
        self@ == other@
    }
}

impl core::str::FromStr for Formatter {
    type Err = FormatError;

    /// Compiles a format spec, as `compile` does: the result is the program that the spec
    /// compiles to, or the spec together with the byte offset of its flaw.
    fn from_str(s: &str) -> (r: Result<Self, Self::Err>)
        ensures
            match r {
                Ok(program) => compiled(s.spec_bytes()) matches Ok(tokens) && tokens == program@,
                Err(e) => compiled(s.spec_bytes()) matches Err(offset) && offset == e.position
                    && e.format@ == s@,
            },
    {
        Formatter::compile(s)
    }
}

/// `scan` with tokens that were read earlier put in front.
spec fn resume(done: Seq<Token>, rest: Scan) -> Scan {
    Scan { tokens: done + rest.tokens, consumed: rest.consumed, flaw: rest.flaw }
}

impl Formatter {
    /// The empty program.
    pub fn new() -> (program: Formatter)
        ensures
            program@ == Seq::<Token>::empty(),
    {
        let program = Formatter { f: Vec::new() };
        assert(program@ =~= Seq::<Token>::empty());
        program
    }

    /// The program that is used where none is given.
    pub fn default() -> (program: Formatter)
        ensures
            program@ == default_program(),
    {
        proof {
            reveal_strlit("[");
            reveal_strlit("] ");
            reveal_strlit(" ");
            reveal_strlit(":");
            reveal_strlit(" - ");
            lemma_ascii_encoding("["@);
            lemma_ascii_encoding("] "@);
            lemma_ascii_encoding(" "@);
            lemma_ascii_encoding(":"@);
            lemma_ascii_encoding(" - "@);
        }
        let mut f = Formatter::new();
        f.push(FormatSpecifier::literal("["));
        f.push(FormatSpecifier::Level);
        f.push(FormatSpecifier::literal("] "));
        f.push(Keyword::Timestamp.directive());
        f.push(FormatSpecifier::literal(" "));
        f.push(FormatSpecifier::ModulePath);
        f.push(FormatSpecifier::literal(":"));
        f.push(FormatSpecifier::File);
        f.push(FormatSpecifier::literal(":"));
        f.push(FormatSpecifier::Line);
        f.push(FormatSpecifier::literal(" - "));
        f.push(FormatSpecifier::Message);
        assert(f@ =~= default_program());
        f
    }

    /// Appends a directive to the program.
    pub fn push(&mut self, f: FormatSpecifier)
        ensures
            final(self)@ == old(self)@.push(f@),
    {
        self.f.push(f);
        assert(self@ =~= old(self)@.push(f@));
    }

    /// Renders one event: expands the directives in program order, appends their text to `w`,
    /// and ends the record with one line terminator.
    ///
    /// Rendering stops at the first directive that fails, and fails with it; what the earlier
    /// directives wrote stays in `w`.
    pub fn format(&self, w: &mut Vec<u8>, record: &LogRecord, datetime: &Timestamp) -> (r: Result<
        (),
        Error,
    >)
        ensures
            r is Ok <==> completes(self@, record, *datetime),
            writes(self@, record, *datetime, old(w)@, final(w)@),
            program_zone_free(self@, *datetime) ==> final(w)@ == old(w)@ + rendered(
                self@,
                record,
                *datetime,
            ),
            r matches Err(e) ==> e matches Error::Parse(cause) && (cause is Instant
                <==> !datetime.is_valid()),
    {
        let ghost program = self@;
        let ghost mut texts: Seq<Seq<u8>> = Seq::empty();
        let mut i: usize = 0;
        proof {
            assert(w@ =~= old(w)@ + texts.flatten());
        }
        while i < self.f.len()
            invariant
                program == self@,
                i <= self.f@.len(),
                texts.len() == i,
                expanded(program, record, *datetime) == first_failure(
                    program,
                    i as int,
                    record,
                    *datetime,
                ),
                forall|j: int|
                    0 <= j < i && token_zone_free(program[j], *datetime) ==> #[trigger] texts[j]
                        == expansion(program[j], record, *datetime)->0,
                w@ == old(w)@ + texts.flatten(),
            decreases self.f@.len() - i,
        {
            let ghost before = w@;
            assert(program[i as int] == self.f@[i as int]@);
            match self.f[i].format(w, record, datetime) {
                Err(e) => {
                    proof {
                        assert(faithful(program, record, *datetime, texts));
                        if program_zone_free(program, *datetime) {
                            lemma_writes_exactly(program, record, *datetime, old(w)@, w@);
                        }
                    }
                    return Err(e);
                },
                Ok(()) => {
                    proof {
                        let text = w@.skip(before.len() as int);
                        assert(w@ =~= before + text);
                        texts.lemma_flatten_push(text);
                        assert(w@ =~= old(w)@ + texts.push(text).flatten());
                        texts = texts.push(text);
                    }
                },
            }
            i = i + 1;
        }
        w.push(NEWLINE);
        proof {
            assert(faithful(program, record, *datetime, texts));
            assert(w@ =~= old(w)@ + line(texts, true));
            if program_zone_free(program, *datetime) {
                lemma_writes_exactly(program, record, *datetime, old(w)@, w@);
            }
        }
        Ok(())
    }

    /// Compiles a format spec into a program.
    ///
    /// Succeeds exactly when the whole format spec is consumed as literal runs and directives.
    /// A failure carries the format spec and the byte offset of its flaw.
    pub fn compile(spec: &str) -> (r: Result<Formatter, FormatError>)
        ensures
            match r {
                Ok(program) => compiled(spec.spec_bytes()) matches Ok(tokens) && tokens == program@,
                Err(e) => compiled(spec.spec_bytes()) matches Err(offset) && offset == e.position
                    && e.format@ == spec@,
            },
    {
        broadcast use encode_utf8_valid_utf8;
        let len = spec.as_bytes().len();
        let ghost bytes = spec.spec_bytes();
        let mut program: Vec<FormatSpecifier> = Vec::new();
        let mut at: usize = 0;
        proof {
            is_char_boundary_start_end_of_seq(bytes);
            assert(resume(Seq::empty(), scan(bytes, 0)) =~= scan(bytes, 0));
        }
        while at < len
            invariant
                bytes == spec.spec_bytes(),
                len == bytes.len(),
                at <= len,
                is_char_boundary(bytes, at as int),
                scan(bytes, 0) == resume(program@.map_values(|d: FormatSpecifier| d@), scan(bytes, at as int)),
            decreases len - at,
        {
            match read_token(spec, at) {
                Err(flaw) => {
                    return Err(FormatError { format: spec.to_owned(), position: flaw_position(flaw, len, at) });
                },
                Ok((directive, next)) => {
                    proof {
                        lemma_token_advances(bytes, at as int);
                        let done = program@.map_values(|d: FormatSpecifier| d@);
                        assert(program@.push(directive).map_values(|d: FormatSpecifier| d@) =~= done.push(directive@));
                        assert(resume(done, scan(bytes, at as int)) =~= resume(
                            done.push(directive@),
                            scan(bytes, next as int),
                        ));
                    }
                    program.push(directive);
                    at = next;
                },
            }
        }
        proof {
            let done = program@.map_values(|d: FormatSpecifier| d@);
            assert(resume(done, scan(bytes, at as int)) =~= Scan { tokens: done, consumed: at as int, flaw: None });
        }
        Ok(Formatter { f: program })
    }
}

/// Compiling is repeatable: whatever two runs of `compile` on the same format spec give, they
/// give structurally equal programs, or failures at the same offset.
pub proof fn lemma_compile_twice(
    spec: &str,
    first: Result<Formatter, FormatError>,
    second: Result<Formatter, FormatError>,
)
    requires
        call_ensures(Formatter::compile, (spec,), first),
        call_ensures(Formatter::compile, (spec,), second),
    ensures
        match (first, second) {
            (Ok(a), Ok(b)) => a@ == b@ && a.eq_spec(&b),
            (Err(a), Err(b)) => a.position == b.position && a.format@ == b.format@,
            _ => false,
        },
{
}

} // verus!
