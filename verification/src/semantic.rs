//! The parts of a line by what they mean: its timestamp, its level
//! keyword, what stands in brackets or quotes, and its numbers. A view
//! paints each part in a colour of its own.

use crate::log::parser::{
    keyword_level, keyword_place, level_from_keyword, LevelClassifier, LogLevel, TimestampFormat,
};
use crate::marking::is_covered;
use crate::pattern::{find, regex_find};
use crate::text::{find_byte, find_in_range, lemma_after_ascii, lemma_find_byte};
use vstd::prelude::*;
use vstd::string::*;
use vstd::utf8::*;

verus! {

/// What a part of a line is.
#[derive(Debug, Clone, Copy, PartialEq, Eq, Structural)]
pub enum TokenKind {
    Text,
    Timestamp,
    Level(LogLevel),
    Bracket,
    Key,
    Quoted,
    Number,
}

/// A part of a line: its bytes from `start` up to `end`, and what they
/// are.
#[derive(Debug, Clone, Copy, PartialEq, Eq, Structural)]
pub struct Token {
    pub start: usize,
    pub end: usize,
    pub kind: TokenKind,
}

pub const DOT: u8 = 46;

pub const COMMA: u8 = 44;

pub const COLON: u8 = 58;

pub const PLUS_SIGN: u8 = 43;

pub const MINUS_SIGN: u8 = 45;

pub const ZULU: u8 = 90;

pub const OPEN_BRACKET: u8 = 91;

pub const CLOSE_BRACKET: u8 = 93;

pub const DOUBLE_QUOTE: u8 = 34;

pub const SINGLE_QUOTE: u8 = 39;

pub const UNDERSCORE: u8 = 95;

/// A quoted part shorter than this with a colon in it is a key.
pub const KEY_LIMIT: usize = 40;

/// How many bytes a time zone such as `+00:00` has.
pub const ZONE_BYTES: usize = 6;

/// The token over the bytes from `start` up to `end`.
pub open spec fn token(start: int, end: int, kind: TokenKind) -> Token {
    Token { start: start as usize, end: end as usize, kind }
}

/// Whether a byte is an ASCII digit.
pub open spec fn is_digit(b: u8) -> bool {
    48 <= b <= 57
}

/// Whether a byte can stand in a word: an ASCII letter, a digit or an
/// underscore.
pub open spec fn is_word_byte(b: u8) -> bool {
    is_digit(b) || 65 <= b <= 90 || 97 <= b <= 122 || b == UNDERSCORE
}

/// Whether a byte is an ASCII digit.
pub fn digit_byte(b: u8) -> (res: bool)
    ensures
        res == is_digit(b),
{
    48 <= b && b <= 57
}

/// Whether a byte can stand in a word.
pub fn word_byte(b: u8) -> (res: bool)
    ensures
        res == is_word_byte(b),
{
    digit_byte(b) || (65 <= b && b <= 90) || (97 <= b && b <= 122) || b == UNDERSCORE
}

/// Where the digits that begin at `from` end.
pub open spec fn digits_end(bytes: Seq<u8>, from: int) -> int
    decreases bytes.len() - from,
{
    if 0 <= from < bytes.len() && is_digit(bytes[from]) {
        digits_end(bytes, from + 1)
    } else {
        from
    }
}

/// The digits that begin at a byte end at or behind it.
pub proof fn lemma_digits_end(bytes: Seq<u8>, from: int)
    ensures
        from <= digits_end(bytes, from),
    decreases bytes.len() - from,
{
    if 0 <= from < bytes.len() && is_digit(bytes[from]) {
        lemma_digits_end(bytes, from + 1);
    }
}

/// Whether `at` is a place between two characters of a text of valid
/// UTF-8, or its start or end.
#[verifier::opaque]
pub open spec fn is_place(bytes: Seq<u8>, at: int) -> bool {
    0 <= at <= bytes.len() && is_char_boundary(bytes, at)
}

/// In valid UTF-8 an ASCII byte stands between two places.
pub proof fn lemma_ascii_places(bytes: Seq<u8>, at: int)
    requires
        valid_utf8(bytes),
        0 <= at < bytes.len(),
        bytes[at] < 128,
    ensures
        is_place(bytes, at),
        is_place(bytes, at + 1),
{
    reveal(is_place);
    is_char_boundary_iff_not_is_continuation_byte(bytes, at);
    lemma_after_ascii(bytes, at);
}

/// Skips the digits that begin at `from`.
pub fn skip_digits(bytes: &[u8], from: usize) -> (end: usize)
    requires
        from <= bytes@.len(),
    ensures
        end == digits_end(bytes@, from as int),
        from <= end <= bytes@.len(),
        forall|k: int| from <= k < end ==> is_digit(#[trigger] bytes@[k]),
{
    let mut end: usize = from;
    while end < bytes.len() && digit_byte(bytes[end])
        invariant
            from <= end <= bytes@.len(),
            digits_end(bytes@, from as int) == digits_end(bytes@, end as int),
            forall|k: int| from <= k < end ==> is_digit(#[trigger] bytes@[k]),
        decreases bytes@.len() - end,
    {
        end = end + 1;
    }
    end
}

/// Where a timestamp that was found up to `end` ends with its fraction of
/// a second: a dot or a comma and the digits behind it, where there are
/// any.
pub open spec fn with_fraction(bytes: Seq<u8>, end: int) -> int {
    if 0 <= end < bytes.len() && (bytes[end] == DOT || bytes[end] == COMMA) && digits_end(
        bytes,
        end + 1,
    ) > end + 1 {
        digits_end(bytes, end + 1)
    } else {
        end
    }
}

/// Where a timestamp that was found up to `end` ends with its time zone:
/// a `Z`, or a sign, a digit and four bytes more, where a character ends
/// there.
pub open spec fn with_zone(bytes: Seq<u8>, end: int) -> int {
    if 0 <= end < bytes.len() && bytes[end] == ZULU {
        end + 1
    } else if 0 <= end && end + ZONE_BYTES <= bytes.len() && (bytes[end] == PLUS_SIGN || bytes[end]
        == MINUS_SIGN) && is_digit(bytes[end + 1]) && is_char_boundary(bytes, end + ZONE_BYTES) {
        end + ZONE_BYTES
    } else {
        end
    }
}

/// Where a timestamp that was found up to `end` ends with its fraction of
/// a second and its time zone.
pub open spec fn stamp_end(bytes: Seq<u8>, end: int) -> int {
    with_zone(bytes, with_fraction(bytes, end))
}

/// Finds where a timestamp that was found up to `end` ends with its
/// fraction of a second and its time zone.
pub fn stamp_extent(line: &str, end: usize) -> (res: usize)
    requires
        is_place(line.spec_bytes(), end as int),
    ensures
        res == stamp_end(line.spec_bytes(), end as int),
        end <= res,
        is_place(line.spec_bytes(), res as int),
{
    broadcast use encode_utf8_valid_utf8;

    let bytes = line.as_bytes();
    let len = bytes.len();
    let mut at: usize = end;
    proof {
        reveal(is_place);
    }
    if at < len && (bytes[at] == DOT || bytes[at] == COMMA) {
        let after = skip_digits(bytes, at + 1);
        if after > at + 1 {
            proof {
                lemma_ascii_places(bytes@, after - 1);
            }
            at = after;
        }
    }
    if at < len && bytes[at] == ZULU {
        proof {
            lemma_ascii_places(bytes@, at as int);
        }
        at + 1
    } else if len - at >= ZONE_BYTES && (bytes[at] == PLUS_SIGN || bytes[at] == MINUS_SIGN)
        && digit_byte(bytes[at + 1]) && line.is_char_boundary(at + ZONE_BYTES) {
        at + ZONE_BYTES
    } else {
        at
    }
}

/// Whether every one of the ranges lies between two places of a text.
pub open spec fn are_spans(bytes: Seq<u8>, ranges: Seq<(usize, usize)>) -> bool {
    forall|k: int|
        0 <= k < ranges.len() ==> (#[trigger] ranges[k]).0 <= ranges[k].1 && is_place(
            bytes,
            ranges[k].0 as int,
        ) && is_place(bytes, ranges[k].1 as int)
}

/// Whether a token lies between two places of a text.
pub open spec fn is_span(bytes: Seq<u8>, t: Token) -> bool {
    t.start <= t.end && is_place(bytes, t.start as int) && is_place(bytes, t.end as int)
}

/// Whether every one of the tokens lies between two places of a text.
pub open spec fn all_spans(bytes: Seq<u8>, tokens: Seq<Token>) -> bool {
    forall|k: int| 0 <= k < tokens.len() ==> is_span(bytes, #[trigger] tokens[k])
}

/// Whether byte `at` lies within one of the ranges.
pub fn covers(ranges: &Vec<(usize, usize)>, at: usize) -> (res: bool)
    ensures
        res == is_covered(ranges@, at as int),
{
    let mut k: usize = 0;
    while k < ranges.len()
        invariant
            k <= ranges@.len(),
            forall|j: int| 0 <= j < k ==> !((#[trigger] ranges@[j]).0 <= at < ranges@[j].1),
        decreases ranges@.len() - k,
    {
        if ranges[k].0 <= at && at < ranges[k].1 {
            return true;
        }
        k = k + 1;
    }
    false
}

/// The parts of what stands in brackets from `from` up to `end` that lie
/// outside the ranges from the `k`-th on, `pos` being where the part at
/// hand begins.
pub open spec fn bracket_pieces(
    ranges: Seq<(usize, usize)>,
    k: int,
    pos: usize,
    from: usize,
    end: usize,
) -> Seq<Token>
    decreases ranges.len() - k,
{
    if k < 0 || k >= ranges.len() {
        if pos < end {
            seq![Token { start: pos, end, kind: TokenKind::Bracket }]
        } else {
            Seq::empty()
        }
    } else if ranges[k].0 >= end || ranges[k].1 <= from {
        bracket_pieces(ranges, k + 1, pos, from, end)
    } else if ranges[k].0 > pos {
        seq![Token { start: pos, end: ranges[k].0, kind: TokenKind::Bracket }] + bracket_pieces(
            ranges,
            k + 1,
            ranges[k].1,
            from,
            end,
        )
    } else {
        bracket_pieces(ranges, k + 1, ranges[k].1, from, end)
    }
}

/// Adds to `found` the parts of what stands in brackets from `from` up to
/// `end` that lie outside the ranges.
pub fn split_bracket(
    line: &str,
    ranges: &Vec<(usize, usize)>,
    from: usize,
    end: usize,
    found: &mut Vec<Token>,
)
    requires
        are_spans(line.spec_bytes(), ranges@),
        from < end,
        is_place(line.spec_bytes(), from as int),
        is_place(line.spec_bytes(), end as int),
        all_spans(line.spec_bytes(), old(found)@),
    ensures
        final(found)@ == old(found)@ + bracket_pieces(ranges@, 0, from, from, end),
        all_spans(line.spec_bytes(), final(found)@),
{
    let ghost bytes = line.spec_bytes();
    let ghost before = found@;
    let mut pos: usize = from;
    let mut k: usize = 0;
    while k < ranges.len()
        invariant
            k <= ranges@.len(),
            are_spans(bytes, ranges@),
            is_place(bytes, pos as int),
            is_place(bytes, end as int),
            all_spans(bytes, found@),
            found@ + bracket_pieces(ranges@, k as int, pos, from, end) == before + bracket_pieces(
                ranges@,
                0,
                from,
                from,
                end,
            ),
        decreases ranges@.len() - k,
    {
        let (cs, ce) = ranges[k];
        let ghost earlier = found@;
        let ghost rest = bracket_pieces(ranges@, k + 1, ce, from, end);
        if !(cs >= end || ce <= from) {
            if cs > pos {
                let piece = Token { start: pos, end: cs, kind: TokenKind::Bracket };
                found.push(piece);
                proof {
                    assert(found@ + rest =~= earlier + (seq![piece] + rest));
                    assert forall|j: int| 0 <= j < found@.len() implies is_span(
                        bytes,
                        #[trigger] found@[j],
                    ) by {
                        if j < earlier.len() {
                            assert(found@[j] == earlier[j]);
                        }
                    }
                }
            }
            pos = ce;
        }
        k = k + 1;
    }
    if pos < end {
        let ghost earlier = found@;
        let piece = Token { start: pos, end, kind: TokenKind::Bracket };
        found.push(piece);
        proof {
            assert(found@ =~= earlier + seq![piece]);
            assert forall|j: int| 0 <= j < found@.len() implies is_span(
                bytes,
                #[trigger] found@[j],
            ) by {
                if j < earlier.len() {
                    assert(found@[j] == earlier[j]);
                }
            }
        }
    } else {
        assert(found@ =~= found@ + Seq::<Token>::empty());
    }
}

/// What a quoted part from `from` up to `end` is: a key where a colon
/// follows it, or where it is short and holds a colon; else a quoted text.
pub open spec fn quote_kind(bytes: Seq<u8>, from: int, end: int) -> TokenKind {
    if end < bytes.len() && bytes[end] == COLON {
        TokenKind::Key
    } else if find_byte(bytes.subrange(0, end), COLON, from) < end && end - from < KEY_LIMIT {
        TokenKind::Key
    } else {
        TokenKind::Quoted
    }
}

/// Finds what a quoted part from `from` up to `end` is.
pub fn kind_of_quote(bytes: &[u8], from: usize, end: usize) -> (kind: TokenKind)
    requires
        from <= end <= bytes@.len(),
    ensures
        kind == quote_kind(bytes@, from as int, end as int),
{
    if end < bytes.len() && bytes[end] == COLON {
        TokenKind::Key
    } else if find_in_range(bytes, COLON, from, end) < end && end - from < KEY_LIMIT {
        TokenKind::Key
    } else {
        TokenKind::Quoted
    }
}

/// Where the number that begins at `from` ends: behind its digits, or
/// behind a dot and more digits that follow them.
pub open spec fn number_end(bytes: Seq<u8>, from: int) -> int {
    let whole = digits_end(bytes, from);
    if 0 <= whole && whole + 1 < bytes.len() && bytes[whole] == DOT && is_digit(bytes[whole + 1]) {
        digits_end(bytes, whole + 1)
    } else {
        whole
    }
}

/// Finds where the number that begins at `from` ends.
pub fn skip_number(bytes: &[u8], from: usize) -> (end: usize)
    requires
        from < bytes@.len(),
        is_digit(bytes@[from as int]),
    ensures
        end == number_end(bytes@, from as int),
        from < end <= bytes@.len(),
        is_digit(bytes@[end - 1]),
{
    let whole = skip_digits(bytes, from);
    proof {
        lemma_digits_end(bytes@, from + 1);
    }
    if whole < bytes.len() && bytes[whole] == DOT && whole + 1 < bytes.len() && digit_byte(
        bytes[whole + 1],
    ) {
        let end = skip_digits(bytes, whole + 1);
        proof {
            lemma_digits_end(bytes@, whole + 2);
        }
        end
    } else {
        whole
    }
}

/// The parts that are found in a line from byte `i` on, outside the
/// ranges: what stands in brackets, from an opening bracket to the next
/// closing one; what stands in quotes, from a quote to the next of its
/// kind; and numbers that stand as words of their own.
pub open spec fn scan_from(bytes: Seq<u8>, ranges: Seq<(usize, usize)>, i: int) -> Seq<Token>
    decreases bytes.len() - i,
{
    if i < 0 || i >= bytes.len() {
        Seq::empty()
    } else if is_covered(ranges, i) {
        scan_from(bytes, ranges, i + 1)
    } else if bytes[i] == OPEN_BRACKET {
        let close = find_byte(bytes, CLOSE_BRACKET, i);
        if i < close < bytes.len() {
            bracket_pieces(ranges, 0, i as usize, i as usize, (close + 1) as usize) + scan_from(
                bytes,
                ranges,
                close + 1,
            )
        } else {
            scan_from(bytes, ranges, i + 1)
        }
    } else if bytes[i] == DOUBLE_QUOTE || bytes[i] == SINGLE_QUOTE {
        let close = find_byte(bytes, bytes[i], i + 1);
        if i < close < bytes.len() {
            seq![token(i, close + 1, quote_kind(bytes, i, close + 1))] + scan_from(
                bytes,
                ranges,
                close + 1,
            )
        } else {
            scan_from(bytes, ranges, i + 1)
        }
    } else if is_digit(bytes[i]) {
        let end = number_end(bytes, i);
        if (i > 0 && is_word_byte(bytes[i - 1])) || end <= i || end > bytes.len() {
            scan_from(bytes, ranges, i + 1)
        } else if end < bytes.len() && is_word_byte(bytes[end]) {
            scan_from(bytes, ranges, end)
        } else {
            seq![token(i, end, TokenKind::Number)] + scan_from(bytes, ranges, end)
        }
    } else {
        scan_from(bytes, ranges, i + 1)
    }
}

/// Finds the parts of a line outside the ranges: what stands in brackets
/// or in quotes, and numbers.
pub fn scan(line: &str, ranges: &Vec<(usize, usize)>) -> (found: Vec<Token>)
    requires
        are_spans(line.spec_bytes(), ranges@),
    ensures
        found@ == scan_from(line.spec_bytes(), ranges@, 0),
        all_spans(line.spec_bytes(), found@),
{
    broadcast use encode_utf8_valid_utf8;

    let bytes = line.as_bytes();
    let len = bytes.len();
    let ghost whole = scan_from(bytes@, ranges@, 0);
    let mut found: Vec<Token> = Vec::new();
    let mut i: usize = 0;
    assert(found@ + whole =~= whole);
    assert(bytes@.subrange(0, len as int) =~= bytes@);
    while i < len
        invariant
            i <= len,
            len == bytes@.len(),
            bytes@ == line.spec_bytes(),
            valid_utf8(bytes@),
            bytes@.subrange(0, len as int) == bytes@,
            are_spans(bytes@, ranges@),
            all_spans(bytes@, found@),
            found@ + scan_from(bytes@, ranges@, i as int) == whole,
        decreases len - i,
    {
        let b = bytes[i];
        let ghost earlier = found@;
        if covers(ranges, i) {
            i = i + 1;
        } else if b == OPEN_BRACKET {
            let close = find_in_range(bytes, CLOSE_BRACKET, i, len);
            if close < len {
                proof {
                    lemma_find_byte(bytes@, CLOSE_BRACKET, i as int);
                    lemma_ascii_places(bytes@, i as int);
                    lemma_ascii_places(bytes@, close as int);
                }
                split_bracket(line, ranges, i, close + 1, &mut found);
                proof {
                    let pieces = bracket_pieces(ranges@, 0, i, i, (close + 1) as usize);
                    let rest = scan_from(bytes@, ranges@, close + 1);
                    assert(found@ + rest =~= earlier + (pieces + rest));
                }
                i = close + 1;
            } else {
                i = i + 1;
            }
        } else if b == DOUBLE_QUOTE || b == SINGLE_QUOTE {
            let close = find_in_range(bytes, b, i + 1, len);
            if close < len {
                let piece = Token { start: i, end: close + 1, kind: kind_of_quote(bytes, i, close + 1) };
                found.push(piece);
                proof {
                    lemma_find_byte(bytes@, b, i + 1);
                    lemma_ascii_places(bytes@, i as int);
                    lemma_ascii_places(bytes@, close as int);
                    let rest = scan_from(bytes@, ranges@, close + 1);
                    assert(found@ + rest =~= earlier + (seq![piece] + rest));
                    assert forall|j: int| 0 <= j < found@.len() implies is_span(
                        bytes@,
                        #[trigger] found@[j],
                    ) by {
                        if j < earlier.len() {
                            assert(found@[j] == earlier[j]);
                        }
                    }
                }
                i = close + 1;
            } else {
                i = i + 1;
            }
        } else if digit_byte(b) {
            if i > 0 && word_byte(bytes[i - 1]) {
                i = i + 1;
            } else {
                let end = skip_number(bytes, i);
                if end < len && word_byte(bytes[end]) {
                    i = end;
                } else {
                    let piece = Token { start: i, end, kind: TokenKind::Number };
                    found.push(piece);
                    proof {
                        lemma_ascii_places(bytes@, i as int);
                        lemma_ascii_places(bytes@, end - 1);
                        let rest = scan_from(bytes@, ranges@, end as int);
                        assert(found@ + rest =~= earlier + (seq![piece] + rest));
                        assert forall|j: int| 0 <= j < found@.len() implies is_span(
                            bytes@,
                            #[trigger] found@[j],
                        ) by {
                            if j < earlier.len() {
                                assert(found@[j] == earlier[j]);
                            }
                        }
                    }
                    i = end;
                }
            }
        } else {
            i = i + 1;
        }
    }
    assert(found@ + Seq::<Token>::empty() =~= found@);
    found
}

/// Tokens in the order of their starts with one more put in: behind
/// those that start where it starts or before.
pub open spec fn placed(sorted: Seq<Token>, t: Token) -> Seq<Token>
    decreases sorted.len(),
{
    if sorted.len() == 0 || sorted.last().start <= t.start {
        sorted.push(t)
    } else {
        placed(sorted.drop_last(), t).push(sorted.last())
    }
}

/// Tokens in the order of their starts, those with the same start in the
/// order in which they were given.
pub open spec fn by_start(tokens: Seq<Token>) -> Seq<Token>
    decreases tokens.len(),
{
    if tokens.len() == 0 {
        Seq::empty()
    } else {
        placed(by_start(tokens.drop_last()), tokens.last())
    }
}

/// A token is put in before the first of those that start behind it.
pub proof fn lemma_placed(sorted: Seq<Token>, t: Token, p: int)
    requires
        0 <= p <= sorted.len(),
        forall|j: int| p <= j < sorted.len() ==> (#[trigger] sorted[j]).start > t.start,
        p > 0 ==> sorted[p - 1].start <= t.start,
    ensures
        placed(sorted, t) == sorted.insert(p, t),
    decreases sorted.len(),
{
    if sorted.len() == 0 || sorted.last().start <= t.start {
        if p < sorted.len() {
            assert(sorted[sorted.len() - 1].start > t.start);
        }
        assert(sorted.push(t) =~= sorted.insert(p, t));
    } else {
        let shorter = sorted.drop_last();
        if p > 0 {
            assert(shorter[p - 1] == sorted[p - 1]);
        }
        assert forall|j: int| p <= j < shorter.len() implies (#[trigger] shorter[j]).start
            > t.start by {
            assert(shorter[j] == sorted[j]);
        }
        lemma_placed(shorter, t, p);
        assert(shorter.insert(p, t).push(sorted.last()) =~= sorted.insert(p, t));
    }
}

/// Puts tokens in the order of their starts; those with the same start
/// stay as they were given.
pub fn sort_by_start(tokens: &Vec<Token>) -> (sorted: Vec<Token>)
    ensures
        sorted@ == by_start(tokens@),
        sorted@.len() == tokens@.len(),
        forall|k: int| 0 <= k < sorted@.len() ==> tokens@.contains(#[trigger] sorted@[k]),
{
    let mut sorted: Vec<Token> = Vec::new();
    let mut n: usize = 0;
    assert(tokens@.take(0) =~= Seq::<Token>::empty());
    while n < tokens.len()
        invariant
            n <= tokens@.len(),
            sorted@.len() == n,
            sorted@ == by_start(tokens@.take(n as int)),
            forall|k: int| 0 <= k < sorted@.len() ==> tokens@.contains(#[trigger] sorted@[k]),
        decreases tokens@.len() - n,
    {
        let t = tokens[n];
        let mut p: usize = sorted.len();
        while p > 0 && sorted[p - 1].start > t.start
            invariant
                p <= sorted@.len(),
                forall|j: int| p <= j < sorted@.len() ==> (#[trigger] sorted@[j]).start > t.start,
            decreases p,
        {
            p = p - 1;
        }
        let ghost earlier = sorted@;
        proof {
            lemma_placed(earlier, t, p as int);
            assert(tokens@.take(n + 1).drop_last() =~= tokens@.take(n as int));
            assert(tokens@.take(n + 1).last() == t);
        }
        sorted.insert(p, t);
        proof {
            assert forall|k: int| 0 <= k < sorted@.len() implies tokens@.contains(
                #[trigger] sorted@[k],
            ) by {
                if k < p {
                    assert(sorted@[k] == earlier[k]);
                } else if k == p {
                    assert(sorted@[k] == tokens@[n as int]);
                } else {
                    assert(sorted@[k] == earlier[k - 1]);
                }
            }
        }
        n = n + 1;
    }
    assert(tokens@.take(n as int) =~= tokens@);
    sorted
}

/// The parts of a line of `len` bytes from byte `pos` on: the tokens
/// from the `k`-th on, but for those that begin within another, and text
/// between them.
pub open spec fn filled_from(tokens: Seq<Token>, k: int, pos: usize, len: usize) -> Seq<Token>
    decreases tokens.len() - k,
{
    if k < 0 || k >= tokens.len() {
        if pos < len {
            seq![Token { start: pos, end: len, kind: TokenKind::Text }]
        } else {
            Seq::empty()
        }
    } else if tokens[k].start > pos {
        seq![Token { start: pos, end: tokens[k].start, kind: TokenKind::Text }, tokens[k]]
            + filled_from(tokens, k + 1, tokens[k].end, len)
    } else if tokens[k].start == pos {
        seq![tokens[k]] + filled_from(tokens, k + 1, tokens[k].end, len)
    } else {
        filled_from(tokens, k + 1, pos, len)
    }
}

/// The parts of a line of `len` bytes: the tokens, but for those that
/// begin within another, and text between them; one part of text for a
/// line with nothing in it.
pub open spec fn filled(tokens: Seq<Token>, len: usize) -> Seq<Token> {
    let parts = filled_from(tokens, 0, 0, len);
    if parts.len() == 0 {
        seq![Token { start: 0, end: len, kind: TokenKind::Text }]
    } else {
        parts
    }
}

/// Whether tokens part a line: the first begins at its start, each
/// begins where the one before it ends, the last ends at its end, and
/// each lies between two places of the line.
pub open spec fn is_partition(bytes: Seq<u8>, tokens: Seq<Token>) -> bool {
    &&& tokens.len() > 0
    &&& tokens[0].start == 0
    &&& tokens.last().end == bytes.len()
    &&& all_spans(bytes, tokens)
    &&& forall|k: int|
        0 <= k < tokens.len() - 1 ==> (#[trigger] tokens[k]).end == (#[trigger] tokens[k + 1]).start
}

/// Whether tokens part a line up to byte `pos`.
pub open spec fn parts_up_to(bytes: Seq<u8>, tokens: Seq<Token>, pos: usize) -> bool {
    &&& is_place(bytes, pos as int)
    &&& all_spans(bytes, tokens)
    &&& tokens.len() == 0 ==> pos == 0
    &&& tokens.len() > 0 ==> tokens[0].start == 0 && tokens.last().end == pos
    &&& forall|k: int|
        0 <= k < tokens.len() - 1 ==> (#[trigger] tokens[k]).end == (#[trigger] tokens[k + 1]).start
}

/// Adds a token that begins where the parts so far end.
fn add_part(line: &str, parts: &mut Vec<Token>, t: Token, Ghost(pos): Ghost<usize>)
    requires
        parts_up_to(line.spec_bytes(), old(parts)@, pos),
        is_span(line.spec_bytes(), t),
        t.start == pos,
    ensures
        final(parts)@ == old(parts)@.push(t),
        parts_up_to(line.spec_bytes(), final(parts)@, t.end),
{
    let ghost earlier = parts@;
    parts.push(t);
    proof {
        let bytes = line.spec_bytes();
        assert forall|k: int| 0 <= k < parts@.len() implies is_span(bytes, #[trigger] parts@[k]) by {
            if k < earlier.len() {
                assert(parts@[k] == earlier[k]);
            }
        }
        assert forall|k: int| 0 <= k < parts@.len() - 1 implies (#[trigger] parts@[k]).end == (
        #[trigger] parts@[k + 1]).start by {
            assert(parts@[k] == earlier[k]);
            if k + 1 < earlier.len() {
                assert(parts@[k + 1] == earlier[k + 1]);
            }
        }
        if earlier.len() > 0 {
            assert(parts@[0] == earlier[0]);
        }
    }
}

/// Parts a line into the tokens, but for those that begin within
/// another, and text between them.
pub fn fill(line: &str, tokens: &Vec<Token>) -> (parts: Vec<Token>)
    requires
        all_spans(line.spec_bytes(), tokens@),
    ensures
        parts@ == filled(tokens@, line.spec_bytes().len() as usize),
        is_partition(line.spec_bytes(), parts@),
{
    broadcast use encode_utf8_valid_utf8;

    let ghost bytes = line.spec_bytes();
    let len = line.as_bytes().len();
    let ghost whole = filled_from(tokens@, 0, 0, len);
    let mut parts: Vec<Token> = Vec::new();
    let mut pos: usize = 0;
    let mut k: usize = 0;
    proof {
        reveal(is_place);
        is_char_boundary_start_end_of_seq(bytes);
        assert(is_place(bytes, 0) && is_place(bytes, len as int));
        assert(parts@ + whole =~= whole);
    }
    while k < tokens.len()
        invariant
            k <= tokens@.len(),
            bytes == line.spec_bytes(),
            len == bytes.len(),
            all_spans(bytes, tokens@),
            parts_up_to(bytes, parts@, pos),
            parts@ + filled_from(tokens@, k as int, pos, len) == whole,
        decreases tokens@.len() - k,
    {
        let t = tokens[k];
        let ghost earlier = parts@;
        let ghost rest = filled_from(tokens@, k + 1, t.end, len);
        if t.start > pos {
            let gap = Token { start: pos, end: t.start, kind: TokenKind::Text };
            add_part(line, &mut parts, gap, Ghost(pos));
            add_part(line, &mut parts, t, Ghost(t.start));
            proof {
                assert(parts@ + rest =~= earlier + (seq![gap, t] + rest));
            }
            pos = t.end;
        } else if t.start == pos {
            add_part(line, &mut parts, t, Ghost(pos));
            proof {
                assert(parts@ + rest =~= earlier + (seq![t] + rest));
            }
            pos = t.end;
        }
        k = k + 1;
    }
    if pos < len {
        let ghost earlier = parts@;
        let last = Token { start: pos, end: len, kind: TokenKind::Text };
        add_part(line, &mut parts, last, Ghost(pos));
        assert(parts@ =~= earlier + seq![last]);
    } else {
        assert(parts@ + Seq::<Token>::empty() =~= parts@);
    }
    if parts.len() == 0 {
        add_part(line, &mut parts, Token { start: 0, end: len, kind: TokenKind::Text }, Ghost(pos));
        assert(parts@ =~= seq![Token { start: 0, end: len, kind: TokenKind::Text }]);
    }
    parts
}

/// The tokens that a line's timestamp and its level keyword give, where
/// they were found: the timestamp with its fraction of a second and its
/// time zone, the keyword with the level that it stands for; in the order
/// of their starts.
pub open spec fn claims(
    bytes: Seq<u8>,
    stamp: Option<(usize, usize)>,
    level: Option<(usize, usize)>,
) -> Seq<Token> {
    let stamped = match stamp {
        Some((start, end)) => seq![token(start as int, stamp_end(bytes, end as int), TokenKind::Timestamp)],
        None => Seq::empty(),
    };
    let leveled = match level {
        Some((start, end)) => seq![
            Token {
                start,
                end,
                kind: TokenKind::Level(keyword_level(bytes.subrange(start as int, end as int))),
            },
        ],
        None => Seq::empty(),
    };
    by_start(stamped + leveled)
}

/// The stretches of a line that tokens take.
pub open spec fn ranges_of(tokens: Seq<Token>) -> Seq<(usize, usize)> {
    Seq::new(tokens.len(), |k: int| (tokens[k].start, tokens[k].end))
}

/// The parts of a line by what they mean, given where its timestamp and
/// its level keyword were found: these two, what is found outside them in
/// brackets and quotes, the numbers, and text between them.
pub open spec fn semantic_tokens(
    bytes: Seq<u8>,
    stamp: Option<(usize, usize)>,
    level: Option<(usize, usize)>,
) -> Seq<Token> {
    if bytes.len() == 0 {
        seq![Token { start: 0, end: 0, kind: TokenKind::Text }]
    } else {
        let first = claims(bytes, stamp, level);
        filled(by_start(first + scan_from(bytes, ranges_of(first), 0)), bytes.len() as usize)
    }
}

/// Whether a stretch that was found in a line lies between two of its
/// places.
pub open spec fn is_found_span(bytes: Seq<u8>, found: Option<(usize, usize)>) -> bool {
    found matches Some((start, end)) ==> start <= end && is_place(bytes, start as int) && is_place(
        bytes,
        end as int,
    )
}

/// The stretches of a line that tokens take.
fn stretches(tokens: &Vec<Token>) -> (ranges: Vec<(usize, usize)>)
    ensures
        ranges@ == ranges_of(tokens@),
{
    let mut ranges: Vec<(usize, usize)> = Vec::new();
    let mut k: usize = 0;
    while k < tokens.len()
        invariant
            k <= tokens@.len(),
            ranges@.len() == k,
            forall|j: int| 0 <= j < k ==> ranges@[j] == (tokens@[j].start, tokens@[j].end),
        decreases tokens@.len() - k,
    {
        ranges.push((tokens[k].start, tokens[k].end));
        k = k + 1;
    }
    assert(ranges@ =~= ranges_of(tokens@));
    ranges
}

/// One list of tokens behind another.
fn joined(first: &Vec<Token>, second: &Vec<Token>) -> (all: Vec<Token>)
    ensures
        all@ == first@ + second@,
{
    let mut all: Vec<Token> = Vec::new();
    let mut k: usize = 0;
    while k < first.len()
        invariant
            k <= first@.len(),
            all@ == first@.take(k as int),
        decreases first@.len() - k,
    {
        all.push(first[k]);
        assert(first@.take(k + 1) =~= first@.take(k as int).push(first@[k as int]));
        k = k + 1;
    }
    assert(first@.take(k as int) =~= first@);
    let mut j: usize = 0;
    while j < second.len()
        invariant
            j <= second@.len(),
            all@ == first@ + second@.take(j as int),
        decreases second@.len() - j,
    {
        all.push(second[j]);
        assert(first@ + second@.take(j + 1) =~= (first@ + second@.take(j as int)).push(
            second@[j as int],
        ));
        j = j + 1;
    }
    assert(second@.take(j as int) =~= second@);
    all
}

/// Parts a line by what its parts mean, given where its timestamp and
/// its level keyword were found. The parts follow one another from the
/// line's start to its end, each between two of its characters.
pub fn tokens_with(line: &str, stamp: Option<(usize, usize)>, level: Option<(usize, usize)>) -> (tokens:
    Vec<Token>)
    requires
        is_found_span(line.spec_bytes(), stamp),
        is_found_span(line.spec_bytes(), level),
    ensures
        tokens@ == semantic_tokens(line.spec_bytes(), stamp, level),
        is_partition(line.spec_bytes(), tokens@),
{
    let bytes = line.as_bytes();
    if bytes.len() == 0 {
        let only = Token { start: 0, end: 0, kind: TokenKind::Text };
        proof {
            reveal(is_place);
        }
        return vec![only];
    }
    let mut given: Vec<Token> = Vec::new();
    let ghost stamped = Seq::<Token>::empty();
    if let Some((start, end)) = stamp {
        proof {
            reveal(is_place);
        }
        let t = Token { start, end: stamp_extent(line, end), kind: TokenKind::Timestamp };
        given.push(t);
        proof {
            stamped = seq![t];
        }
    }
    assert(given@ =~= stamped);
    if let Some((start, end)) = level {
        proof {
            reveal(is_place);
        }
        let t = Token { start, end, kind: TokenKind::Level(level_from_keyword(bytes, start, end)) };
        given.push(t);
        assert(given@ =~= stamped + seq![t]);
    } else {
        assert(given@ =~= stamped + Seq::<Token>::empty());
    }
    assert(all_spans(bytes@, given@));
    let first = sort_by_start(&given);
    assert(first@ == claims(bytes@, stamp, level));
    let ranges = stretches(&first);
    assert(are_spans(bytes@, ranges@)) by {
        assert forall|k: int| 0 <= k < ranges@.len() implies (#[trigger] ranges@[k]).0 <= ranges@[k].1
            && is_place(bytes@, ranges@[k].0 as int) && is_place(bytes@, ranges@[k].1 as int) by {
            assert(given@.contains(first@[k]));
        }
    }
    let found = scan(line, &ranges);
    let all = joined(&first, &found);
    assert(all_spans(bytes@, all@)) by {
        assert forall|k: int| 0 <= k < all@.len() implies is_span(bytes@, #[trigger] all@[k]) by {
            if k < first@.len() {
                assert(given@.contains(first@[k]));
            } else {
                assert(all@[k] == found@[k - first@.len()]);
            }
        }
    }
    let sorted = sort_by_start(&all);
    assert(all_spans(bytes@, sorted@)) by {
        assert forall|k: int| 0 <= k < sorted@.len() implies is_span(bytes@, #[trigger] sorted@[k]) by {
            assert(all@.contains(sorted@[k]));
        }
    }
    fill(line, &sorted)
}

/// Where a line's timestamp stands: the leftmost match of the format's
/// expression, where there is a format.
pub open spec fn stamp_place(format: Option<&TimestampFormat>, line: Seq<char>) -> Option<
    (usize, usize),
> {
    match format {
        Some(f) => match regex_find(&f.regex, line) {
            Some((start, end)) => Some((start as usize, end as usize)),
            None => None,
        },
        None => None,
    }
}

/// Parts a line by what its parts mean: its timestamp, its level
/// keyword, what stands in brackets and quotes, its numbers, and text
/// between them. The parts follow one another from the line's start to
/// its end, each between two of its characters.
pub fn tokenize_semantic(line: &str, format: Option<&TimestampFormat>, levels: &LevelClassifier) -> (tokens:
    Vec<Token>)
    ensures
        tokens@ == semantic_tokens(
            line.spec_bytes(),
            stamp_place(format, line@),
            keyword_place(line@),
        ),
        is_partition(line.spec_bytes(), tokens@),
{
    let stamp = match format {
        Some(f) => find(&f.regex, line),
        None => None,
    };
    let level = levels.find_keyword(line);
    proof {
        reveal(is_place);
    }
    tokens_with(line, stamp, level)
}

} // verus!
