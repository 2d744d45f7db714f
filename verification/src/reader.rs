//! Reads the tokens of a format spec, one at a time.

use vstd::prelude::*;
use vstd::string::StringSliceAdditionalSpecFns;
use vstd::utf8::{
    encode_utf8_valid_utf8, is_char_boundary, is_char_boundary_iff_not_is_continuation_byte,
    is_char_boundary_start_end_of_seq,
};
use crate::format::FormatSpecifier;
use crate::grammar::{
    directive_at, flaw_offset, has_word_at, keyword_at, token_at, Flaw, Keyword, Step, CLOSE, COLON,
    OPEN,
};
use crate::text::{
    lemma_ascii_encoding, lemma_boundary_after_ascii, lemma_find_byte, scan_for, slice_text,
};

verus! {

impl Keyword {
    /// The keyword as it is written in a spec.
    fn word(self) -> (word: &'static [u8])
        ensures
            word@ == self.name(),
    {
        let text = match self {
            Keyword::Level => "level",
            Keyword::Message => "message",
            Keyword::File => "file",
            Keyword::ModulePath => "module_path",
            Keyword::Line => "line",
            Keyword::Timestamp => "timestamp",
        };
        proof {
            reveal_strlit("level");
            reveal_strlit("message");
            reveal_strlit("file");
            reveal_strlit("module_path");
            reveal_strlit("line");
            reveal_strlit("timestamp");
            lemma_ascii_encoding(text@);
        }
        text.as_bytes()
    }

    /// The directive that `{keyword}` compiles to.
    pub(crate) fn directive(self) -> (directive: FormatSpecifier)
        ensures
            directive@ == self.token(),
    {
        match self {
            Keyword::Level => FormatSpecifier::Level,
            Keyword::Message => FormatSpecifier::Message,
            Keyword::File => FormatSpecifier::File,
            Keyword::ModulePath => FormatSpecifier::ModulePath,
            Keyword::Line => FormatSpecifier::Line,
            Keyword::Timestamp => {
                proof {
                    reveal_strlit("%F %T%z");
                    lemma_ascii_encoding("%F %T%z"@);
                }
                FormatSpecifier::Timestamp("%F %T%z".to_owned())
            },
        }
    }
}

/// Whether `word` stands in `bytes` at position `at`.
fn word_at(bytes: &[u8], at: usize, word: &[u8]) -> (found: bool)
    requires
        at <= bytes@.len(),
    ensures
        found == has_word_at(bytes@, at as int, word@),
{
    if word.len() > bytes.len() - at {
        return false;
    }
    let mut i: usize = 0;
    while i < word.len()
        invariant
            at + word@.len() <= bytes@.len() <= usize::MAX,
            i <= word@.len(),
            bytes@.subrange(at as int, at + i) == word@.subrange(0, i as int),
        decreases word@.len() - i,
    {
        if bytes[at + i] != word[i] {
            proof {
                let part = bytes@.subrange(at as int, at + word@.len());
                assert(part[i as int] != word@[i as int]);
            }
            return false;
        }
        i = i + 1;
        assert(bytes@.subrange(at as int, at + i) =~= bytes@.subrange(at as int, at + i - 1).push(
            bytes@[at + i - 1],
        ));
        assert(word@.subrange(0, i as int) =~= word@.subrange(0, i - 1).push(word@[i - 1]));
    }
    assert(word@.subrange(0, i as int) =~= word@);
    true
}

/// The keyword that stands in `bytes` at position `at`, if any.
fn keyword_here(bytes: &[u8], at: usize) -> (keyword: Option<Keyword>)
    requires
        at <= bytes@.len(),
    ensures
        keyword == keyword_at(bytes@, at as int),
{
    if word_at(bytes, at, Keyword::Level.word()) {
        Some(Keyword::Level)
    } else if word_at(bytes, at, Keyword::Message.word()) {
        Some(Keyword::Message)
    } else if word_at(bytes, at, Keyword::File.word()) {
        Some(Keyword::File)
    } else if word_at(bytes, at, Keyword::ModulePath.word()) {
        Some(Keyword::ModulePath)
    } else if word_at(bytes, at, Keyword::Line.word()) {
        Some(Keyword::Line)
    } else if word_at(bytes, at, Keyword::Timestamp.word()) {
        Some(Keyword::Timestamp)
    } else {
        None
    }
}

/// Reads the directive whose opening brace stands at `at`.
fn read_directive(spec: &str, at: usize) -> (step: Result<(FormatSpecifier, usize), Flaw>)
    requires
        at < spec.spec_bytes().len(),
        spec.spec_bytes()[at as int] == OPEN,
    ensures
        match step {
            Ok((directive, next)) => directive_at(spec.spec_bytes(), at as int) == (Step::Read {
                token: directive@,
                next: next as int,
            }) && is_char_boundary(spec.spec_bytes(), next as int),
            Err(flaw) => directive_at(spec.spec_bytes(), at as int) == (Step::Stuck { flaw }),
        },
{
    broadcast use encode_utf8_valid_utf8;
    let bytes = spec.as_bytes();
    let len = bytes.len();
    match keyword_here(bytes, at + 1) {
        None => Err(Flaw::UnknownKeyword),
        Some(keyword) => {
            assert(has_word_at(bytes@, at + 1, keyword.name()));
            let after = at + 1 + keyword.word().len();
            if after >= len {
                Err(Flaw::Unterminated)
            } else if bytes[after] == CLOSE {
                proof {
                    lemma_boundary_after_ascii(bytes@, after as int);
                }
                Ok((keyword.directive(), after + 1))
            } else if keyword == Keyword::Timestamp && bytes[after] == COLON {
                let close = scan_for(bytes, CLOSE, after + 1);
                if close >= len {
                    Err(Flaw::Unterminated)
                } else {
                    proof {
                        lemma_find_byte(bytes@, CLOSE, after + 1);
                        lemma_boundary_after_ascii(bytes@, after as int);
                        lemma_boundary_after_ascii(bytes@, close as int);
                    }
                    let pattern = slice_text(spec, after + 1, close);
                    Ok((FormatSpecifier::Timestamp(pattern.to_owned()), close + 1))
                }
            } else {
                Err(Flaw::TrailingInput)
            }
        },
    }
}

/// Reads the token that starts at `at`.
pub(crate) fn read_token(spec: &str, at: usize) -> (step: Result<(FormatSpecifier, usize), Flaw>)
    requires
        at < spec.spec_bytes().len(),
        is_char_boundary(spec.spec_bytes(), at as int),
    ensures
        match step {
            Ok((directive, next)) => token_at(spec.spec_bytes(), at as int) == (Step::Read {
                token: directive@,
                next: next as int,
            }) && is_char_boundary(spec.spec_bytes(), next as int),
            Err(flaw) => token_at(spec.spec_bytes(), at as int) == (Step::Stuck { flaw }),
        },
{
    broadcast use encode_utf8_valid_utf8;
    let bytes = spec.as_bytes();
    if bytes[at] == OPEN {
        read_directive(spec, at)
    } else {
        let end = scan_for(bytes, OPEN, at);
        proof {
            lemma_find_byte(bytes@, OPEN, at as int);
            if end < bytes@.len() {
                is_char_boundary_iff_not_is_continuation_byte(bytes@, end as int);
            } else {
                is_char_boundary_start_end_of_seq(bytes@);
            }
        }
        let text = slice_text(spec, at, end);
        Ok((FormatSpecifier::Str(text.to_owned()), end))
    }
}

/// The position that is reported for a flaw found after `consumed` bytes.
pub(crate) fn flaw_position(flaw: Flaw, len: usize, consumed: usize) -> (position: usize)
    requires
        consumed < len,
    ensures
        position == flaw_offset(flaw, len as int, consumed as int),
{
    match flaw {
        Flaw::UnknownKeyword => consumed + 1,
        Flaw::Unterminated => 0,
        Flaw::TrailingInput => len - consumed,
    }
}

} // verus!
