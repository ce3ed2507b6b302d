//! Regular expressions: the `regex` crate's compiled expressions and the few
//! calls into it that the engine makes. Nothing in this file is proved; the
//! rest of the library is proved against what is stated here.

use regex::Regex;
use vstd::prelude::*;
use vstd::string::*;
use vstd::utf8::*;

verus! {

/// `regex::Regex`, a compiled expression: nothing is seen of what is in
/// it.
#[verifier::external_type_specification]
#[verifier::external_body]
pub struct ExRegex(regex::Regex);

/// `regex::Error`, why a pattern was refused: nothing is seen of what is
/// in it.
#[verifier::external_type_specification]
#[verifier::external_body]
pub struct ExRegexError(regex::Error);

/// What `regex::Regex::new` makes of a pattern text: the compiled
/// expression, or `None` where the pattern is refused.
pub uninterp spec fn regex_new(pattern: Seq<char>) -> Option<Regex>;

/// What `regex::Regex::find` returns for an expression and a text: the byte
/// range of the leftmost match, or `None` where nothing matches.
pub uninterp spec fn regex_find(re: &Regex, text: Seq<char>) -> Option<(int, int)>;

/// What `regex::escape` returns: the text with every character that has a
/// meaning in a pattern escaped.
pub uninterp spec fn regex_escaped(text: Seq<char>) -> Seq<char>;

/// Whether an expression has a match anywhere in a text.
pub open spec fn regex_matches(re: &Regex, text: Seq<char>) -> bool {
    regex_find(re, text) is Some
}

/// Compiles a pattern with `regex::Regex::new`. Whether the pattern is
/// accepted, and the expression that comes out, depend on the pattern text
/// alone.
#[verifier::external_body]
pub(crate) fn compile(pattern: &str) -> (res: Result<Regex, regex::Error>)
    ensures
        match res {
            Ok(re) => regex_new(pattern@) == Some(re),
            Err(_) => regex_new(pattern@) is None,
        },
{
    Regex::new(pattern)
}

/// Calls `regex::Regex::is_match`, which is true exactly when `find` would
/// return a match.
#[verifier::external_body]
pub(crate) fn is_match(re: &Regex, text: &str) -> (found: bool)
    ensures
        found == regex_matches(re, text@),
{
    re.is_match(text)
}

/// Calls `regex::Regex::find` and hands out the start and end of the match.
/// Both are byte offsets into the text, in order, and fall on character
/// boundaries.
#[verifier::external_body]
pub(crate) fn find(re: &Regex, text: &str) -> (res: Option<(usize, usize)>)
    ensures
        match res {
            Some((start, end)) => regex_find(re, text@) == Some((start as int, end as int)),
            None => regex_find(re, text@) is None,
        },
        res matches Some((start, end)) ==> start <= end <= text.spec_bytes().len()
            && is_char_boundary(text.spec_bytes(), start as int) && is_char_boundary(
            text.spec_bytes(),
            end as int,
        ),
{
    match re.find(text) {
        Some(m) => Some((m.start(), m.end())),
        None => None,
    }
}

/// Calls `regex::escape`.
#[verifier::external_body]
pub(crate) fn escape(text: &str) -> (res: String)
    ensures
        res@ == regex_escaped(text@),
{
    regex::escape(text)
}

/// A clone of a compiled expression is the same expression.
pub assume_specification[ <regex::Regex as Clone>::clone ](re: &regex::Regex) -> (res: regex::Regex)
    ensures
        res == *re,
;

/// The message of a refused pattern, as `regex::Error` displays it.
#[verifier::external_body]
pub(crate) fn error_message(error: &regex::Error) -> (res: String) {
    error.to_string()
}

/// What the matches are that `regex::Regex::find_iter` yields for an
/// expression and a text: their byte ranges, one after another.
pub uninterp spec fn regex_find_all(re: &Regex, text: Seq<char>) -> Seq<(int, int)>;

/// Whether ranges lie in a text of `len` bytes one after another without
/// overlapping, each from a start to an end no smaller.
pub open spec fn in_sequence(ranges: Seq<(usize, usize)>, len: int) -> bool {
    &&& forall|i: int| 0 <= i < ranges.len() ==> (#[trigger] ranges[i]).0 <= ranges[i].1 <= len
    &&& forall|i: int, j: int|
        0 <= i < j < ranges.len() ==> (#[trigger] ranges[i]).1 <= (#[trigger] ranges[j]).0
}

/// Collects the matches of `regex::Regex::find_iter`, each as its start
/// and end. The matches follow one another in the text without
/// overlapping, and start and end on character boundaries.
#[verifier::external_body]
pub(crate) fn find_all(re: &Regex, text: &str) -> (ranges: Vec<(usize, usize)>)
    ensures
        ranges@.len() == regex_find_all(re, text@).len(),
        forall|i: int|
            0 <= i < ranges@.len() ==> (#[trigger] ranges@[i]).0 == regex_find_all(re, text@)[i].0
                && ranges@[i].1 == regex_find_all(re, text@)[i].1,
        in_sequence(ranges@, text.spec_bytes().len() as int),
        forall|i: int|
            0 <= i < ranges@.len() ==> is_char_boundary(
                text.spec_bytes(),
                (#[trigger] ranges@[i]).0 as int,
            ) && is_char_boundary(text.spec_bytes(), ranges@[i].1 as int),
{
    re.find_iter(text).map(|m| (m.start(), m.end())).collect()
}

} // verus!
