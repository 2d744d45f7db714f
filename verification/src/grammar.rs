//! The format-spec language, stated over the bytes of the spec string.
//!
//! A spec is a sequence of literal runs and directives. A literal run is a maximal span of
//! bytes without `{`. A directive is `{keyword}` for one of six keywords, or
//! `{timestamp:PATTERN}`, whose pattern runs up to the next `}`.

use vstd::prelude::*;
use crate::text::{ascii, find_byte, lemma_find_byte, lemma_find_byte_is};

verus! {

/// `{`, which opens a directive.
pub const OPEN: u8 = 0x7b;

/// `}`, which closes a directive.
pub const CLOSE: u8 = 0x7d;

/// `:`, which separates `timestamp` from its pattern.
pub const COLON: u8 = 0x3a;

/// What one directive of a compiled program stands for; text is held as UTF-8 bytes.
#[verifier::ext_equal]
pub enum Token {
    /// A literal run, by its text.
    Literal(Seq<u8>),
    /// The severity of the event.
    Level,
    /// The time of the event, by the pattern that formats it.
    Timestamp(Seq<u8>),
    /// The module that logged the event.
    ModulePath,
    /// The source file that logged the event.
    File,
    /// The source line that logged the event.
    Line,
    /// The message of the event.
    Message,
}

/// The words that may stand between braces.
#[derive(Clone, Copy, Debug, PartialEq, Eq, Structural)]
pub enum Keyword {
    Level,
    Message,
    File,
    ModulePath,
    Line,
    Timestamp,
}

/// Why a spec does not compile.
#[derive(Clone, Copy, Debug, PartialEq, Eq, Structural)]
pub enum Flaw {
    /// No keyword follows the opening brace.
    UnknownKeyword,
    /// The spec ends inside a directive: after its keyword, or inside a timestamp pattern.
    Unterminated,
    /// A keyword is followed by something other than the closing brace, so that the rest of
    /// the spec cannot be consumed.
    TrailingInput,
}

impl Keyword {
    /// The keyword as it is written in a spec.
    pub open spec fn name(self) -> Seq<u8> {
        match self {
            Keyword::Level => ascii("level"@),
            Keyword::Message => ascii("message"@),
            Keyword::File => ascii("file"@),
            Keyword::ModulePath => ascii("module_path"@),
            Keyword::Line => ascii("line"@),
            Keyword::Timestamp => ascii("timestamp"@),
        }
    }

    /// The directive that `{keyword}` compiles to.
    pub open spec fn token(self) -> Token {
        match self {
            Keyword::Level => Token::Level,
            Keyword::Message => Token::Message,
            Keyword::File => Token::File,
            Keyword::ModulePath => Token::ModulePath,
            Keyword::Line => Token::Line,
            Keyword::Timestamp => Token::Timestamp(default_pattern()),
        }
    }
}

/// `%F %T%z`: ISO-8601 date and time followed by the numeric zone offset.
pub open spec fn default_pattern() -> Seq<u8> {
    ascii("%F %T%z"@)
}

/// Whether `word` stands in `s` at position `at`.
pub open spec fn has_word_at(s: Seq<u8>, at: int, word: Seq<u8>) -> bool {
    0 <= at && at + word.len() <= s.len() && s.subrange(at, at + word.len()) == word
}

/// The keyword that stands in `s` at position `at`, if any. No keyword is a prefix of another,
/// so at most one does.
pub open spec fn keyword_at(s: Seq<u8>, at: int) -> Option<Keyword> {
    if has_word_at(s, at, Keyword::Level.name()) {
        Some(Keyword::Level)
    } else if has_word_at(s, at, Keyword::Message.name()) {
        Some(Keyword::Message)
    } else if has_word_at(s, at, Keyword::File.name()) {
        Some(Keyword::File)
    } else if has_word_at(s, at, Keyword::ModulePath.name()) {
        Some(Keyword::ModulePath)
    } else if has_word_at(s, at, Keyword::Line.name()) {
        Some(Keyword::Line)
    } else if has_word_at(s, at, Keyword::Timestamp.name()) {
        Some(Keyword::Timestamp)
    } else {
        None
    }
}

/// The outcome of reading one token.
#[verifier::ext_equal]
pub enum Step {
    /// A token was read; the next one starts at `next`.
    Read { token: Token, next: int },
    /// No token can be read here.
    Stuck { flaw: Flaw },
}

/// Reads the directive whose opening brace stands at `at`.
pub open spec fn directive_at(s: Seq<u8>, at: int) -> Step {
    match keyword_at(s, at + 1) {
        None => Step::Stuck { flaw: Flaw::UnknownKeyword },
        Some(keyword) => {
            let after = at + 1 + keyword.name().len();
            if after >= s.len() {
                Step::Stuck { flaw: Flaw::Unterminated }
            } else if s[after] == CLOSE {
                Step::Read { token: keyword.token(), next: after + 1 }
            } else if keyword == Keyword::Timestamp && s[after] == COLON {
                let close = find_byte(s, CLOSE, after + 1);
                if close >= s.len() {
                    Step::Stuck { flaw: Flaw::Unterminated }
                } else {
                    Step::Read { token: Token::Timestamp(s.subrange(after + 1, close)), next: close + 1 }
                }
            } else {
                Step::Stuck { flaw: Flaw::TrailingInput }
            }
        },
    }
}

/// Reads the token that starts at `at`: a literal run up to the next opening brace, or a
/// directive.
pub open spec fn token_at(s: Seq<u8>, at: int) -> Step
    recommends
        0 <= at < s.len(),
{
    if s[at] == OPEN {
        directive_at(s, at)
    } else {
        let end = find_byte(s, OPEN, at);
        Step::Read { token: Token::Literal(s.subrange(at, end)), next: end }
    }
}

/// What reading tokens from some position to the end of a spec gives.
#[verifier::ext_equal]
pub struct Scan {
    /// The tokens read, in source order.
    pub tokens: Seq<Token>,
    /// Where reading stopped: the length of the successfully parsed prefix.
    pub consumed: int,
    /// Why reading stopped before the end, if it did.
    pub flaw: Option<Flaw>,
}

/// Reads tokens from `at` until the spec ends or no token can be read.
pub open spec fn scan(s: Seq<u8>, at: int) -> Scan
    decreases s.len() - at,
    via scan_decreases
{
    if at < 0 || at >= s.len() {
        Scan { tokens: Seq::empty(), consumed: at, flaw: None }
    } else {
        match token_at(s, at) {
            Step::Stuck { flaw } => Scan { tokens: Seq::empty(), consumed: at, flaw: Some(flaw) },
            Step::Read { token, next } => {
                let rest = scan(s, next);
                Scan { tokens: seq![token] + rest.tokens, consumed: rest.consumed, flaw: rest.flaw }
            },
        }
    }
}

#[via_fn]
proof fn scan_decreases(s: Seq<u8>, at: int) {
    if 0 <= at < s.len() {
        lemma_token_advances(s, at);
    }
}

/// A token that was read is not empty and ends inside the spec.
pub proof fn lemma_token_advances(s: Seq<u8>, at: int)
    requires
        0 <= at < s.len(),
    ensures
        token_at(s, at) matches Step::Read { next, .. } ==> at < next <= s.len(),
{
    lemma_find_byte(s, OPEN, at);
    if s[at] == OPEN {
        match keyword_at(s, at + 1) {
            None => {},
            Some(keyword) => {
                let after = at + 1 + keyword.name().len();
                if after < s.len() {
                    lemma_find_byte(s, CLOSE, after + 1);
                }
            },
        }
    }
}

/// The byte offset reported for a flaw found after `consumed` bytes of a spec of `len` bytes.
///
/// An unknown keyword is reported at the position of its opening brace, counted from one. A
/// spec that ends inside a directive is reported at zero. Trailing input is reported as the length
/// of the spec minus the length of the successfully parsed prefix.
pub open spec fn flaw_offset(flaw: Flaw, len: int, consumed: int) -> int {
    match flaw {
        Flaw::UnknownKeyword => consumed + 1,
        Flaw::Unterminated => 0,
        Flaw::TrailingInput => len - consumed,
    }
}

/// The program that a spec compiles to, or the byte offset of its flaw.
pub open spec fn compiled(s: Seq<u8>) -> Result<Seq<Token>, int> {
    let all = scan(s, 0);
    match all.flaw {
        None => Ok(all.tokens),
        Some(flaw) => Err(flaw_offset(flaw, s.len() as int, all.consumed)),
    }
}

/// One piece of a spec as it is written: a literal run, a keyword between braces, or
/// `timestamp` with a pattern of its own.
#[verifier::ext_equal]
pub enum Piece {
    /// A literal run, written as it stands.
    Literal(Seq<u8>),
    /// A keyword, written between braces.
    Keyword(Keyword),
    /// A timestamp with a pattern, written as `{timestamp:PATTERN}`.
    Pattern(Seq<u8>),
}

impl Piece {
    /// The bytes that write the piece.
    pub open spec fn source(self) -> Seq<u8> {
        match self {
            Piece::Literal(text) => text,
            Piece::Keyword(keyword) => seq![OPEN] + keyword.name() + seq![CLOSE],
            Piece::Pattern(pattern) => seq![OPEN] + Keyword::Timestamp.name() + seq![COLON] + pattern
                + seq![CLOSE],
        }
    }

    /// The directive that the piece stands for.
    pub open spec fn token(self) -> Token {
        match self {
            Piece::Literal(text) => Token::Literal(text),
            Piece::Keyword(keyword) => keyword.token(),
            Piece::Pattern(pattern) => Token::Timestamp(pattern),
        }
    }
}

/// The spec that writes the given pieces one after the other.
pub open spec fn source_of(pieces: Seq<Piece>) -> Seq<u8>
    decreases pieces.len(),
{
    if pieces.len() == 0 {
        Seq::empty()
    } else {
        pieces[0].source() + source_of(pieces.drop_first())
    }
}

/// The directives that the given pieces stand for, in the same order.
pub open spec fn tokens_of(pieces: Seq<Piece>) -> Seq<Token> {
    pieces.map_values(|piece: Piece| piece.token())
}

/// Whether the pieces are the literal runs and directives of the spec they write: every
/// literal run is non-empty, holds no opening brace and is followed by a directive or by the
/// end, and no pattern holds a closing brace.
pub open spec fn well_formed(pieces: Seq<Piece>) -> bool {
    forall|i: int|
        0 <= i < pieces.len() ==> match #[trigger] pieces[i] {
            Piece::Literal(text) => text.len() > 0 && !text.contains(OPEN) && (i + 1 < pieces.len()
                ==> !(pieces[i + 1] is Literal)),
            Piece::Keyword(_) => true,
            Piece::Pattern(pattern) => !pattern.contains(CLOSE),
        }
}

/// A keyword that stands at a position is the one that `keyword_at` finds there.
pub proof fn lemma_keyword_found(s: Seq<u8>, at: int, keyword: Keyword)
    requires
        has_word_at(s, at, keyword.name()),
    ensures
        keyword_at(s, at) == Some(keyword),
{
    reveal_strlit("level");
    reveal_strlit("message");
    reveal_strlit("file");
    reveal_strlit("module_path");
    reveal_strlit("line");
    reveal_strlit("timestamp");
    let own = s.subrange(at, at + keyword.name().len());
    assert(own[0] == s[at] && own[1] == s[at + 1]);
    assert forall|other: Keyword| other != keyword implies !has_word_at(s, at, #[trigger] other.name()) by {
        if has_word_at(s, at, other.name()) {
            let theirs = s.subrange(at, at + other.name().len());
            assert(theirs[0] == s[at] && theirs[1] == s[at + 1]);
        }
    }
    assert(Keyword::Level != keyword ==> !has_word_at(s, at, Keyword::Level.name()));
    assert(Keyword::Message != keyword ==> !has_word_at(s, at, Keyword::Message.name()));
    assert(Keyword::File != keyword ==> !has_word_at(s, at, Keyword::File.name()));
    assert(Keyword::ModulePath != keyword ==> !has_word_at(s, at, Keyword::ModulePath.name()));
    assert(Keyword::Line != keyword ==> !has_word_at(s, at, Keyword::Line.name()));
    assert(Keyword::Timestamp != keyword ==> !has_word_at(s, at, Keyword::Timestamp.name()));
}

/// Reading a spec at the place where a piece was written gives the directive of that piece.
proof fn lemma_piece_read_back(before: Seq<u8>, piece: Piece, after: Seq<u8>)
    requires
        match piece {
            Piece::Literal(text) => text.len() > 0 && !text.contains(OPEN) && (after.len() > 0
                ==> after[0] == OPEN),
            Piece::Keyword(_) => true,
            Piece::Pattern(pattern) => !pattern.contains(CLOSE),
        },
    ensures
        token_at(before + piece.source() + after, before.len() as int) == (Step::Read {
            token: piece.token(),
            next: (before.len() + piece.source().len()) as int,
        }),
{
    let s = before + piece.source() + after;
    let at = before.len() as int;
    let written = piece.source();
    assert forall|i: int| 0 <= i < written.len() implies s[at + i] == written[i] by {}
    match piece {
        Piece::Literal(text) => {
            let end = at + text.len();
            assert forall|i: int| at <= i < end implies s[i] != OPEN by {
                assert(s[i] == text[i - at]);
            }
            if end < s.len() {
                assert(s[end] == after[0]);
            }
            assert(s[at] == text[0]);
            lemma_find_byte_is(s, OPEN, at, end);
            assert(s.subrange(at, end) =~= text);
        },
        Piece::Pattern(pattern) => {
            let name = Keyword::Timestamp.name();
            reveal_strlit("timestamp");
            assert(s.subrange(at + 1, at + 1 + name.len()) =~= name) by {
                assert forall|i: int| 0 <= i < name.len() implies s[at + 1 + i] == name[i] by {
                    assert(s[at + 1 + i] == written[1 + i]);
                }
            }
            lemma_keyword_found(s, at + 1, Keyword::Timestamp);
            let colon = at + 1 + name.len();
            let close = colon + 1 + pattern.len();
            assert(s[at] == written[0]);
            assert(s[colon] == written[1 + name.len() as int]);
            assert(s[close] == written[close - at]);
            assert forall|i: int| colon + 1 <= i < close implies s[i] != CLOSE by {
                assert(s[i] == written[i - at]);
                assert(written[i - at] == pattern[i - colon - 1]);
            }
            lemma_find_byte_is(s, CLOSE, colon + 1, close);
            assert(s.subrange(colon + 1, close) =~= pattern);
        },
        Piece::Keyword(keyword) => {
            let name = keyword.name();
            reveal_strlit("level");
            reveal_strlit("message");
            reveal_strlit("file");
            reveal_strlit("module_path");
            reveal_strlit("line");
            reveal_strlit("timestamp");
            assert(s.subrange(at + 1, at + 1 + name.len()) =~= name) by {
                assert forall|i: int| 0 <= i < name.len() implies s[at + 1 + i] == name[i] by {
                    assert(s[at + 1 + i] == written[1 + i]);
                }
            }
            lemma_keyword_found(s, at + 1, keyword);
            assert(s[at] == written[0]);
            assert(s[at + 1 + name.len()] == written[1 + name.len() as int]);
        },
    }
}

/// The spec that writes pieces which start with a directive starts with an opening brace.
proof fn lemma_source_starts(pieces: Seq<Piece>)
    requires
        pieces.len() > 0,
        !(pieces[0] is Literal),
    ensures
        source_of(pieces).len() > 0,
        source_of(pieces)[0] == OPEN,
{
    let written = pieces[0].source();
    assert(written[0] == OPEN);
    assert(source_of(pieces)[0] == written[0]);
}

/// Reading the spec that writes well-formed pieces, from the place where they start, gives
/// their directives back.
proof fn lemma_scan_source(before: Seq<u8>, pieces: Seq<Piece>)
    requires
        well_formed(pieces),
    ensures
        scan(before + source_of(pieces), before.len() as int) == (Scan {
            tokens: tokens_of(pieces),
            consumed: (before.len() + source_of(pieces).len()) as int,
            flaw: None,
        }),
    decreases pieces.len(),
{
    let s = before + source_of(pieces);
    let at = before.len() as int;
    if pieces.len() == 0 {
        assert(scan(s, at).tokens =~= tokens_of(pieces));
    } else {
        let first = pieces[0];
        let rest = pieces.drop_first();
        let after = source_of(rest);
        assert(well_formed(rest)) by {
            assert forall|i: int| 0 <= i < rest.len() implies match #[trigger] rest[i] {
                Piece::Literal(text) => text.len() > 0 && !text.contains(OPEN) && (i + 1 < rest.len()
                    ==> !(rest[i + 1] is Literal)),
                Piece::Keyword(_) => true,
                Piece::Pattern(pattern) => !pattern.contains(CLOSE),
            } by {
                assert(rest[i] == pieces[i + 1]);
                if i + 1 < rest.len() {
                    assert(rest[i + 1] == pieces[i + 2]);
                }
            }
        }
        if first is Literal && rest.len() > 0 {
            assert(rest[0] == pieces[1]);
            lemma_source_starts(rest);
        }
        lemma_piece_read_back(before, first, after);
        assert(s =~= before + first.source() + after);
        let next = before + first.source();
        lemma_scan_source(next, rest);
        assert(s =~= next + after);
        assert(tokens_of(pieces) =~= seq![first.token()] + tokens_of(rest));
    }
}

/// Compiling reads a spec back as it was written: the spec that writes well-formed pieces one
/// after the other compiles, and the program holds exactly one directive for each keyword or
/// pattern and one for each literal run, in source order.
pub proof fn lemma_compile_reads_back(pieces: Seq<Piece>)
    requires
        well_formed(pieces),
    ensures
        compiled(source_of(pieces)) matches Ok(program) && program == tokens_of(pieces),
{
    lemma_scan_source(Seq::empty(), pieces);
    assert(Seq::<u8>::empty() + source_of(pieces) =~= source_of(pieces));
}

/// Where reading stopped before the end, it stopped at an opening brace inside the spec.
pub proof fn lemma_scan_stops(s: Seq<u8>, at: int)
    requires
        0 <= at <= s.len(),
    ensures
        at <= scan(s, at).consumed <= s.len(),
        scan(s, at).flaw is None <==> scan(s, at).consumed == s.len(),
        scan(s, at).flaw matches Some(flaw) ==> s[scan(s, at).consumed] == OPEN && token_at(
            s,
            scan(s, at).consumed,
        ) == (Step::Stuck { flaw }),
    decreases s.len() - at,
{
    if at < s.len() {
        lemma_token_advances(s, at);
        match token_at(s, at) {
            Step::Stuck { .. } => {},
            Step::Read { next, .. } => {
                lemma_scan_stops(s, next);
            },
        }
    }
}

/// A spec in which an opening brace is followed by no keyword fails to compile, and the offset
/// reported is the position of that brace, counted from one.
pub proof fn lemma_unknown_keyword_offset(s: Seq<u8>)
    requires
        scan(s, 0).flaw == Some(Flaw::UnknownKeyword),
    ensures
        compiled(s) matches Err(offset) && offset == scan(s, 0).consumed + 1,
        0 <= scan(s, 0).consumed < s.len(),
        s[scan(s, 0).consumed] == OPEN,
        keyword_at(s, scan(s, 0).consumed + 1) is None,
{
    lemma_scan_stops(s, 0);
}

/// A spec that ends inside a directive fails to compile, and the offset reported is zero.
pub proof fn lemma_unterminated_offset(s: Seq<u8>)
    requires
        scan(s, 0).flaw == Some(Flaw::Unterminated),
    ensures
        compiled(s) matches Err(offset) && offset == 0,
{
}

/// A spec with trailing input, that is, one in which a keyword is followed by something other
/// than the closing brace so that the rest cannot be consumed, fails to compile, and the offset
/// reported is the length of the spec minus the length of the successfully parsed prefix.
pub proof fn lemma_trailing_input_offset(s: Seq<u8>)
    requires
        scan(s, 0).flaw == Some(Flaw::TrailingInput),
    ensures
        compiled(s) matches Err(offset) && offset == s.len() - scan(s, 0).consumed,
        0 < s.len() - scan(s, 0).consumed <= s.len(),
{
    lemma_scan_stops(s, 0);
}

/// Whether the tokens are such as compiling gives: every literal run is non-empty, holds no
/// opening brace and is followed by a directive or by nothing, and no timestamp pattern holds a
/// closing brace.
pub open spec fn canonical(tokens: Seq<Token>) -> bool {
    forall|i: int|
        0 <= i < tokens.len() ==> match #[trigger] tokens[i] {
            Token::Literal(text) => text.len() > 0 && !text.contains(OPEN) && (i + 1 < tokens.len()
                ==> !(tokens[i + 1] is Literal)),
            Token::Timestamp(pattern) => !pattern.contains(CLOSE),
            _ => true,
        }
}

/// The tokens read from a position on are canonical, and a literal run among them is maximal:
/// it starts where the last token ended and ends before an opening brace or at the end.
proof fn lemma_scan_canonical(s: Seq<u8>, at: int)
    requires
        0 <= at <= s.len(),
        scan(s, at).flaw is None,
    ensures
        canonical(scan(s, at).tokens),
        at < s.len() ==> scan(s, at).tokens.len() > 0 && (scan(s, at).tokens[0] is Literal <==> s[at]
            != OPEN),
        at == s.len() ==> scan(s, at).tokens.len() == 0,
    decreases s.len() - at,
{
    reveal_strlit("%F %T%z");
    if at < s.len() {
        lemma_token_advances(s, at);
        lemma_find_byte(s, OPEN, at);
        match token_at(s, at) {
            Step::Stuck { .. } => {},
            Step::Read { token, next } => {
                lemma_scan_canonical(s, next);
                let rest = scan(s, next).tokens;
                let all = scan(s, at).tokens;
                assert(all =~= seq![token] + rest);
                match token {
                    Token::Literal(text) => {
                        assert(text == s.subrange(at, next));
                        assert forall|j: int| 0 <= j < text.len() implies text[j] != OPEN by {
                            assert(text[j] == s[at + j]);
                        }
                        assert(next < s.len() ==> s[next] == OPEN);
                    },
                    Token::Timestamp(pattern) => {
                        let after = at + 1 + Keyword::Timestamp.name().len();
                        if s[after] == COLON {
                            lemma_find_byte(s, CLOSE, after + 1);
                            assert forall|j: int| 0 <= j < pattern.len() implies pattern[j] != CLOSE by {
                                assert(pattern[j] == s[after + 1 + j]);
                            }
                        } else {
                            assert(pattern == default_pattern());
                            assert forall|j: int| 0 <= j < pattern.len() implies pattern[j] != CLOSE by {}
                        }
                    },
                    _ => {},
                }
                assert forall|i: int| 0 <= i < all.len() implies match #[trigger] all[i] {
                    Token::Literal(text) => text.len() > 0 && !text.contains(OPEN) && (i + 1 < all.len()
                        ==> !(all[i + 1] is Literal)),
                    Token::Timestamp(pattern) => !pattern.contains(CLOSE),
                    _ => true,
                } by {
                    if i > 0 {
                        assert(all[i] == rest[i - 1]);
                        if i + 1 < all.len() {
                            assert(all[i + 1] == rest[i]);
                        }
                    } else {
                        assert(all[0] == token);
                        if 1 < all.len() {
                            assert(all[1] == rest[0]);
                        }
                    }
                }
            },
        }
    }
}

/// A compiled program is canonical: its literal runs are the maximal spans without an opening
/// brace, so none is empty and no two follow one another.
pub proof fn lemma_compiled_is_canonical(s: Seq<u8>)
    requires
        compiled(s) is Ok,
    ensures
        canonical(compiled(s)->Ok_0),
{
    lemma_scan_canonical(s, 0);
}

} // verus!
