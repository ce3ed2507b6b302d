//! Filter expressions: terms between whitespace, each a text that a line
//! must hold, in any letter case, or, behind an exclamation mark, a text
//! that it must not hold.

use crate::pattern::{compile, error_message, escape, regex_escaped, regex_new};
use crate::search::{literal_pattern, literal_pattern_text, IGNORE_CASE};
use crate::text::{split_words, substring, views_of, whitespace_words};
use regex::Regex;
use vstd::prelude::*;
use vstd::string::*;
use vstd::utf8::*;

verus! {

/// One condition of a filter: an expression, and whether a line passes
/// where the expression matches or where it does not.
pub struct FilterCondition {
    pub regex: Regex,
    pub negated: bool,
}

/// The byte that negates a term.
pub const NEGATION: u8 = 33;

/// What separates the alternatives of a pattern.
pub const ALTERNATIVE: &'static str = "|";

/// Whether a word of a filter expression is negated.
pub open spec fn is_negated(word: Seq<char>) -> bool {
    encode_utf8(word).len() > 0 && encode_utf8(word)[0] == NEGATION
}

/// The text that a word of a filter expression asks for: the word without
/// the exclamation mark that negates it.
pub open spec fn term_of(word: Seq<char>) -> Seq<char> {
    if is_negated(word) {
        decode_utf8(encode_utf8(word).skip(1))
    } else {
        word
    }
}

/// The conditions as pairs of an expression and whether it is negated.
pub open spec fn pairs_of(conditions: Seq<FilterCondition>) -> Seq<(Regex, bool)> {
    Seq::new(conditions.len(), |i: int| (conditions[i].regex, conditions[i].negated))
}

/// The conditions that the first `n` words ask for, in order; a word that
/// is nothing but an exclamation mark asks for none. `None` where the
/// regex engine refuses the pattern of one of them.
pub open spec fn conditions_of(words: Seq<Seq<char>>, n: int) -> Option<Seq<(Regex, bool)>>
    decreases n,
{
    if n <= 0 {
        Some(Seq::empty())
    } else {
        match conditions_of(words, n - 1) {
            Some(before) => {
                let term = term_of(words[n - 1]);
                if term.len() == 0 {
                    Some(before)
                } else {
                    match regex_new(literal_pattern(term)) {
                        Some(re) => Some(before.push((re, is_negated(words[n - 1])))),
                        None => None,
                    }
                }
            },
            None => None,
        }
    }
}

/// The alternatives that a highlight of the first `n` words is made of:
/// the escaped terms that are not negated, with a bar between them.
pub open spec fn positive_alternatives(words: Seq<Seq<char>>, n: int) -> Seq<char>
    decreases n,
{
    if n <= 0 {
        Seq::empty()
    } else {
        let before = positive_alternatives(words, n - 1);
        let term = term_of(words[n - 1]);
        if term.len() == 0 || is_negated(words[n - 1]) {
            before
        } else if positive_count(words, n - 1) == 0 {
            before + regex_escaped(term)
        } else {
            before + ALTERNATIVE@ + regex_escaped(term)
        }
    }
}

/// How many of the first `n` words ask for a text that a line must hold.
pub open spec fn positive_count(words: Seq<Seq<char>>, n: int) -> nat
    decreases n,
{
    if n <= 0 {
        0
    } else {
        let term = term_of(words[n - 1]);
        positive_count(words, n - 1) + if term.len() == 0 || is_negated(words[n - 1]) {
            0nat
        } else {
            1nat
        }
    }
}

/// The expression that marks in a line what a filter asks for: any of the
/// terms that are not negated, in any letter case. `None` where every term
/// is negated or the regex engine refuses the pattern.
pub open spec fn highlight_of(words: Seq<Seq<char>>) -> Option<Regex> {
    if positive_count(words, words.len() as int) == 0 {
        None
    } else {
        regex_new(IGNORE_CASE@ + positive_alternatives(words, words.len() as int))
    }
}

/// What a filter expression asks for.
pub struct FilterPlan {
    pub conditions: Vec<FilterCondition>,
    pub highlight: Option<Regex>,
}

/// Whether `res` is what a filter expression asks for: its conditions and
/// its highlight, or the message of the first pattern that the regex
/// engine refuses.
pub open spec fn is_parsed(pattern: Seq<char>, res: Result<FilterPlan, String>) -> bool {
    let words = whitespace_words(pattern);
    match res {
        Ok(plan) => {
            &&& conditions_of(words, words.len() as int) == Some(pairs_of(plan.conditions@))
            &&& plan.highlight == highlight_of(words)
        },
        Err(_) => conditions_of(words, words.len() as int) is None,
    }
}

/// Takes the exclamation mark off a negated word.
fn split_term(word: &str) -> (res: (bool, &str))
    ensures
        res.0 == is_negated(word@),
        res.1@ == term_of(word@),
{
    broadcast use encode_utf8_valid_utf8, encode_utf8_decode_utf8;

    let bytes = word.as_bytes();
    if bytes.len() > 0 && bytes[0] == NEGATION {
        proof {
            let all = word.spec_bytes();
            assert(valid_utf8(all));
            is_char_boundary_start_end_of_seq(all);
            reveal_with_fuel(is_char_boundary, 2);
            assert(is_char_boundary(all, 1)) by {
                is_char_boundary_start_end_of_seq(pop_first_scalar(all));
            }
            assert(all.subrange(1, all.len() as int) =~= all.skip(1));
        }
        (true, substring(word, 1, bytes.len()))
    } else {
        (false, word)
    }
}

/// Reads a filter expression: one condition for each term, and the
/// expression that marks what the terms ask for.
pub fn parse_filter(pattern: &str) -> (res: Result<FilterPlan, String>)
    ensures
        is_parsed(pattern@, res),
{
    let words = split_words(pattern);
    let ghost texts = whitespace_words(pattern@);
    let mut conditions: Vec<FilterCondition> = Vec::new();
    let mut alternatives = String::new();
    let mut positives: usize = 0;
    let mut i: usize = 0;
    while i < words.len()
        invariant
            i <= words@.len(),
            texts == views_of(words@),
            texts == whitespace_words(pattern@),
            conditions_of(texts, i as int) == Some(pairs_of(conditions@)),
            alternatives@ == positive_alternatives(texts, i as int),
            positives == positive_count(texts, i as int),
            positives <= i,
        decreases words@.len() - i,
    {
        let (negated, term) = split_term(words[i]);
        proof {
            assert(texts[i as int] == words@[i as int]@);
        }
        if !term.is_empty() {
            let source = literal_pattern_text(term);
            match compile(source.as_str()) {
                Ok(re) => {
                    let ghost before = pairs_of(conditions@);
                    let ghost joined = alternatives@;
                    conditions.push(FilterCondition { regex: re, negated });
                    proof {
                        assert(pairs_of(conditions@) =~= before.push((re, negated)));
                    }
                    if !negated {
                        let escaped = escape(term);
                        if positives > 0 {
                            alternatives.append(ALTERNATIVE);
                        }
                        alternatives.append(escaped.as_str());
                        positives = positives + 1;
                        proof {
                            assert(alternatives@ =~= positive_alternatives(texts, i + 1));
                        }
                    }
                },
                Err(e) => {
                    proof {
                        assert(conditions_of(texts, i + 1) is None);
                        assert(texts.len() == words@.len());
                        lemma_refused_stays(texts, i + 1, texts.len() as int);
                    }
                    return Err(error_message(&e));
                },
            }
        }
        i = i + 1;
    }
    let highlight = if positives == 0 {
        None
    } else {
        let mut source = IGNORE_CASE.to_owned();
        source.append(alternatives.as_str());
        match compile(source.as_str()) {
            Ok(re) => Some(re),
            Err(_) => None,
        }
    };
    Ok(FilterPlan { conditions, highlight })
}

/// Once a pattern has been refused, no further word makes up for it.
pub proof fn lemma_refused_stays(words: Seq<Seq<char>>, n: int, m: int)
    requires
        0 <= n <= m,
        conditions_of(words, n) is None,
    ensures
        conditions_of(words, m) is None,
    decreases m - n,
{
    if n < m {
        lemma_refused_stays(words, n, m - 1);
    }
}

/// The conditions as pairs of an expression and whether it is negated.
pub fn condition_pairs(conditions: &Vec<FilterCondition>) -> (pairs: Vec<(Regex, bool)>)
    ensures
        pairs@ == pairs_of(conditions@),
{
    let mut pairs: Vec<(Regex, bool)> = Vec::new();
    let mut i: usize = 0;
    while i < conditions.len()
        invariant
            i <= conditions@.len(),
            pairs@.len() == i,
            forall|k: int|
                0 <= k < i ==> #[trigger] pairs@[k] == (conditions@[k].regex, conditions@[k].negated),
        decreases conditions@.len() - i,
    {
        pairs.push((conditions[i].regex.clone(), conditions[i].negated));
        i = i + 1;
    }
    proof {
        assert(pairs@ =~= pairs_of(conditions@));
    }
    pairs
}

} // verus!
