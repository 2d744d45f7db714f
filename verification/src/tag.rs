//! Tag patterns: regular expressions that are searched for in the target of an event.

use vstd::prelude::*;
use regex::Regex;

verus! {

/// A compiled regular expression of the `regex` crate. Nothing of its inside is known here.
#[verifier::external_type_specification]
#[verifier::external_body]
pub struct ExRegex(Regex);

/// What a compiled expression holds: the texts in which it finds a match.
pub uninterp spec fn language(re: Regex) -> Set<Seq<char>>;

/// The texts in which a pattern finds a match once it is compiled; `None` for a pattern that
/// does not compile, because it is no regular expression or grows over the size limit of
/// `Regex::new`.
pub uninterp spec fn pattern_language(pattern: Seq<char>) -> Option<Set<Seq<char>>>;

/// Calls `regex::Regex::new` and forgets why a pattern was refused.
///
/// Trusted: whether a pattern compiles, and what the compiled expression matches, depends on
/// the pattern alone.
#[verifier::external_body]
pub(crate) fn compile_tag(pattern: &str) -> (tag: Option<Regex>)
    ensures
        match tag {
            Some(re) => pattern_language(pattern@) == Some(language(re)),
            None => pattern_language(pattern@) is None,
        },
{
    Regex::new(pattern).ok()
}

/// `regex::Regex::is_match` tells whether the expression matches somewhere in the text.
///
/// Trusted: the answer depends on the expression and the text alone.
pub assume_specification[ Regex::is_match ](re: &Regex, text: &str) -> (found: bool)
    ensures
        found == language(*re).contains(text@),
;

/// The texts that a tag admits, if a tag is set.
pub open spec fn tag_language(tag: Option<Regex>) -> Option<Set<Seq<char>>> {
    match tag {
        Some(re) => Some(language(re)),
        None => None,
    }
}

/// The tag gate: an event passes where no tag is set, or where the tag matches somewhere within
/// its target.
pub open spec fn tag_passes(tag: Option<Regex>, target: Seq<char>) -> bool {
    match tag {
        Some(re) => language(re).contains(target),
        None => true,
    }
}

/// Evaluates the tag gate.
pub fn tag_gate(tag: &Option<Regex>, target: &str) -> (pass: bool)
    ensures
        pass == tag_passes(*tag, target@),
{
    match tag {
        Some(re) => re.is_match(target),
        None => true,
    }
}

} // verus!
