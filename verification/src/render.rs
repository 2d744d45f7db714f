//! What rendering writes: the expansion of each directive, and of a program as a whole.

use vstd::prelude::*;
use vstd::utf8::{decode_utf8, encode_utf8};
use crate::clock::{strftime_text, zone_free, Timestamp};
use crate::grammar::{
    compiled, default_pattern, lemma_compile_reads_back, source_of, tokens_of, well_formed, Keyword,
    Piece, Token, CLOSE, OPEN,
};
use crate::record::LogRecord;
use crate::text::{ascii, decimal};

verus! {

/// The line terminator that ends every rendered record.
pub const NEWLINE: u8 = 0x0a;

/// The text of a timestamp: what `pattern` makes of `at`, or `None` where a part of the time
/// lies outside its range or the pattern is rejected.
pub open spec fn stamp(pattern: Seq<char>, at: Timestamp) -> Option<Seq<u8>> {
    if !at.is_valid() {
        None
    } else {
        match strftime_text(pattern, at) {
            Some(text) => Some(encode_utf8(text)),
            None => None,
        }
    }
}

/// The bytes that a directive expands to for one event and one captured time, or `None`
/// where the expansion fails. Only a timestamp can fail.
pub open spec fn expansion(token: Token, record: &LogRecord, at: Timestamp) -> Option<Seq<u8>> {
    match token {
        Token::Literal(text) => Some(text),
        Token::Level => Some(encode_utf8(record.level.name())),
        Token::Timestamp(pattern) => stamp(decode_utf8(pattern), at),
        Token::ModulePath => Some(encode_utf8(record.module@)),
        Token::File => Some(encode_utf8(record.file@)),
        Token::Line => Some(encode_utf8(decimal(record.line as nat))),
        Token::Message => Some(encode_utf8(record.message@)),
    }
}

/// Whether the expansion of the directive depends on nothing but the event and the time.
pub open spec fn token_zone_free(token: Token, at: Timestamp) -> bool {
    token matches Token::Timestamp(pattern) ==> zone_free(decode_utf8(pattern), at)
}

/// Whether rendering the program depends on nothing but the event and the time.
pub open spec fn program_zone_free(program: Seq<Token>, at: Timestamp) -> bool {
    forall|i: int| 0 <= i < program.len() ==> token_zone_free(#[trigger] program[i], at)
}

/// The position of the first directive at or after `from` whose expansion fails, or the length
/// of the program where none does.
pub open spec fn first_failure(program: Seq<Token>, from: int, record: &LogRecord, at: Timestamp) -> int
    decreases program.len() - from,
{
    if from < 0 || from >= program.len() {
        program.len() as int
    } else if expansion(program[from], record, at) is None {
        from
    } else {
        first_failure(program, from + 1, record, at)
    }
}

/// How many directives are expanded: rendering goes in program order and stops at the first
/// directive that fails.
pub open spec fn expanded(program: Seq<Token>, record: &LogRecord, at: Timestamp) -> int {
    first_failure(program, 0, record, at)
}

/// Whether every directive is expanded.
pub open spec fn completes(program: Seq<Token>, record: &LogRecord, at: Timestamp) -> bool {
    expanded(program, record, at) == program.len()
}

/// The expansions of the directives that are expanded, in program order.
pub open spec fn expansions(program: Seq<Token>, record: &LogRecord, at: Timestamp) -> Seq<Seq<u8>> {
    Seq::new(expanded(program, record, at) as nat, |i: int| expansion(program[i], record, at)->0)
}

/// The bytes of a record: the texts of its directives one after the other and, where the
/// record is complete, one line terminator behind them.
pub open spec fn line(texts: Seq<Seq<u8>>, complete: bool) -> Seq<u8> {
    if complete {
        texts.flatten().push(NEWLINE)
    } else {
        texts.flatten()
    }
}

/// What rendering one event writes: the expansions of its directives in program order and, if
/// none of them fails, one line terminator. What was written before a failure stays written.
pub open spec fn rendered(program: Seq<Token>, record: &LogRecord, at: Timestamp) -> Seq<u8> {
    line(expansions(program, record, at), completes(program, record, at))
}

/// Whether `texts` can be what the expanded directives wrote: there is one text for each of
/// them, and it is the expansion itself wherever that depends on nothing but the event and the
/// time.
pub open spec fn faithful(
    program: Seq<Token>,
    record: &LogRecord,
    at: Timestamp,
    texts: Seq<Seq<u8>>,
) -> bool {
    &&& texts.len() == expanded(program, record, at)
    &&& forall|i: int|
        0 <= i < texts.len() && token_zone_free(program[i], at) ==> #[trigger] texts[i] == expansion(
            program[i],
            record,
            at,
        )->0
}

/// Whether rendering one event can turn the buffer `before` into `after`: the record stands
/// behind what the buffer held, every expanded directive with its text.
pub open spec fn writes(
    program: Seq<Token>,
    record: &LogRecord,
    at: Timestamp,
    before: Seq<u8>,
    after: Seq<u8>,
) -> bool {
    exists|texts: Seq<Seq<u8>>|
        faithful(program, record, at, texts) && after == before + line(
            texts,
            completes(program, record, at),
        )
}

/// Every directive before the first failure expands, and the directive there does not.
pub proof fn lemma_first_failure(program: Seq<Token>, from: int, record: &LogRecord, at: Timestamp)
    requires
        0 <= from <= program.len(),
    ensures
        from <= first_failure(program, from, record, at) <= program.len(),
        forall|i: int|
            from <= i < first_failure(program, from, record, at) ==> expansion(
                #[trigger] program[i],
                record,
                at,
            ) is Some,
        first_failure(program, from, record, at) < program.len() ==> expansion(
            program[first_failure(program, from, record, at)],
            record,
            at,
        ) is None,
    decreases program.len() - from,
{
    if from < program.len() && expansion(program[from], record, at) is Some {
        lemma_first_failure(program, from + 1, record, at);
    }
}

/// Where rendering depends on nothing but the event and the time, what it writes is exactly
/// the rendered record.
pub proof fn lemma_writes_exactly(
    program: Seq<Token>,
    record: &LogRecord,
    at: Timestamp,
    before: Seq<u8>,
    after: Seq<u8>,
)
    requires
        writes(program, record, at, before, after),
        program_zone_free(program, at),
    ensures
        after == before + rendered(program, record, at),
{
    let texts = choose|texts: Seq<Seq<u8>>|
        faithful(program, record, at, texts) && after == before + line(
            texts,
            completes(program, record, at),
        );
    lemma_first_failure(program, 0, record, at);
    assert(texts =~= expansions(program, record, at));
}

/// The program that is used where none is given:
/// `[LEVEL] TIMESTAMP MODULE:FILE:LINE - MESSAGE`.
pub open spec fn default_program() -> Seq<Token> {
    seq![
        Token::Literal(ascii("["@)),
        Token::Level,
        Token::Literal(ascii("] "@)),
        Token::Timestamp(default_pattern()),
        Token::Literal(ascii(" "@)),
        Token::ModulePath,
        Token::Literal(ascii(":"@)),
        Token::File,
        Token::Literal(ascii(":"@)),
        Token::Line,
        Token::Literal(ascii(" - "@)),
        Token::Message,
    ]
}

/// The spec that writes the default program.
pub open spec fn default_spec() -> Seq<u8> {
    ascii("[{level}] {timestamp} {module_path}:{file}:{line} - {message}"@)
}

/// The pieces of the default spec.
spec fn default_pieces() -> Seq<Piece> {
    seq![
        Piece::Literal(ascii("["@)),
        Piece::Keyword(Keyword::Level),
        Piece::Literal(ascii("] "@)),
        Piece::Keyword(Keyword::Timestamp),
        Piece::Literal(ascii(" "@)),
        Piece::Keyword(Keyword::ModulePath),
        Piece::Literal(ascii(":"@)),
        Piece::Keyword(Keyword::File),
        Piece::Literal(ascii(":"@)),
        Piece::Keyword(Keyword::Line),
        Piece::Literal(ascii(" - "@)),
        Piece::Keyword(Keyword::Message),
    ]
}

/// The default program is the one that its spec compiles to.
pub proof fn lemma_default_program_compiles()
    ensures
        compiled(default_spec()) matches Ok(program) && program == default_program(),
{
    let pieces = default_pieces();
    reveal_strlit("[");
    reveal_strlit("] ");
    reveal_strlit(" ");
    reveal_strlit(":");
    reveal_strlit(" - ");
    reveal_strlit("level");
    reveal_strlit("message");
    reveal_strlit("file");
    reveal_strlit("module_path");
    reveal_strlit("line");
    reveal_strlit("timestamp");
    reveal_strlit("[{level}] {timestamp} {module_path}:{file}:{line} - {message}");
    assert(well_formed(pieces)) by {
        assert forall|i: int| 0 <= i < pieces.len() implies match #[trigger] pieces[i] {
            Piece::Literal(text) => text.len() > 0 && !text.contains(OPEN) && (i + 1 < pieces.len()
                ==> !(pieces[i + 1] is Literal)),
            Piece::Keyword(_) => true,
            Piece::Pattern(pattern) => !pattern.contains(CLOSE),
        } by {
            if i % 2 == 0 {
                let text = pieces[i]->Literal_0;
                assert forall|j: int| 0 <= j < text.len() implies text[j] != OPEN by {}
            }
        }
    }
    lemma_compile_reads_back(pieces);
    assert(source_of(pieces) =~= default_spec()) by {
        reveal_with_fuel(source_of, 13);
    }
    assert(tokens_of(pieces) =~= default_program());
}

} // verus!
