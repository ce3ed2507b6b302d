//! Stateless detectors: the severity level of a line, and the timestamp
//! format of a file.

use crate::datetime::{current_year, datetime_millis, parse_datetime_millis};
use crate::pattern::{compile, find, is_match, regex_find, regex_matches, regex_new};
use crate::text::substring;
use regex::Regex;
use vstd::prelude::*;
use vstd::string::*;
use vstd::utf8::*;

verus! {

/// The severity of a log line.
#[derive(Debug, Clone, Copy, PartialEq, Eq, Structural)]
pub enum LogLevel {
    Error,
    Warn,
    Info,
    Debug,
    Trace,
    Unknown,
}

/// The most bytes of a line that are searched for a level keyword.
pub const LEVEL_WINDOW: usize = 100;

/// The expression that finds a level keyword: any of the keywords, in any
/// letter case, as a whole word.
pub const LEVEL_PATTERN: &'static str = r"(?i)\b(ERROR|FATAL|CRITICAL|WARN|WARNING|INFO|DEBUG|TRACE)\b";

/// The largest character boundary of `bytes` that is at most `at`.
pub open spec fn floor_char_boundary(bytes: Seq<u8>, at: int) -> int
    decreases at,
{
    if at <= 0 {
        0
    } else if is_char_boundary(bytes, at) {
        at
    } else {
        floor_char_boundary(bytes, at - 1)
    }
}

/// The part of a line that is searched for a level keyword: the whole line
/// where it has at most `LEVEL_WINDOW` bytes, else its longest prefix of
/// whole characters within `LEVEL_WINDOW` bytes.
pub open spec fn level_window(line: Seq<char>) -> Seq<char> {
    let bytes = encode_utf8(line);
    if bytes.len() > LEVEL_WINDOW {
        decode_utf8(bytes.subrange(0, floor_char_boundary(bytes, LEVEL_WINDOW as int)))
    } else {
        line
    }
}

/// An ASCII letter's upper case; any other byte unchanged.
pub open spec fn ascii_upper(b: u8) -> u8 {
    if 97 <= b <= 122 {
        (b - 32) as u8
    } else {
        b
    }
}

/// Whether `word` is `keyword` but for the case of its ASCII letters.
/// `keyword` is in upper case.
pub open spec fn is_keyword(word: Seq<u8>, keyword: Seq<char>) -> bool {
    word.len() == keyword.len() && forall|i: int|
        0 <= i < word.len() ==> ascii_upper(#[trigger] word[i]) == keyword[i] as u8
}

/// The level that a matched keyword stands for.
pub open spec fn keyword_level(word: Seq<u8>) -> LogLevel {
    if is_keyword(word, "ERROR"@) || is_keyword(word, "FATAL"@) || is_keyword(word, "CRITICAL"@) {
        LogLevel::Error
    } else if is_keyword(word, "WARN"@) || is_keyword(word, "WARNING"@) {
        LogLevel::Warn
    } else if is_keyword(word, "INFO"@) {
        LogLevel::Info
    } else if is_keyword(word, "DEBUG"@) {
        LogLevel::Debug
    } else if is_keyword(word, "TRACE"@) {
        LogLevel::Trace
    } else {
        LogLevel::Unknown
    }
}

/// The level that `matcher` finds in a line: that of the leftmost keyword
/// in the line's window, `Unknown` where there is no matcher or no match.
pub open spec fn level_with(matcher: Option<Regex>, line: Seq<char>) -> LogLevel {
    match matcher {
        Some(re) => match regex_find(&re, level_window(line)) {
            Some((start, end)) => keyword_level(encode_utf8(level_window(line)).subrange(start, end)),
            None => LogLevel::Unknown,
        },
        None => LogLevel::Unknown,
    }
}

/// Where the first level keyword stands in a text, the whole of it
/// searched: the leftmost match of the level expression.
pub open spec fn keyword_place(text: Seq<char>) -> Option<(usize, usize)> {
    match regex_new(LEVEL_PATTERN@) {
        Some(re) => match regex_find(&re, text) {
            Some((start, end)) => Some((start as usize, end as usize)),
            None => None,
        },
        None => None,
    }
}

/// The level of a line.
pub open spec fn level_of(line: Seq<char>) -> LogLevel {
    level_with(regex_new(LEVEL_PATTERN@), line)
}

/// Compares `bytes[from..to]` with an upper-case ASCII keyword, ignoring
/// the case of ASCII letters.
fn matches_keyword(bytes: &[u8], from: usize, to: usize, keyword: &str) -> (same: bool)
    requires
        from <= to <= bytes@.len(),
        is_ascii(keyword),
    ensures
        same == is_keyword(bytes@.subrange(from as int, to as int), keyword@),
{
    broadcast use is_ascii_spec_bytes;

    let word = keyword.as_bytes();
    let ghost sub = bytes@.subrange(from as int, to as int);
    assert(word@.len() == keyword@.len());
    if to - from != word.len() {
        return false;
    }
    let mut i: usize = 0;
    while i < word.len()
        invariant
            i <= word@.len(),
            word@.len() == keyword@.len(),
            to - from == word@.len(),
            from <= to <= bytes@.len(),
            sub == bytes@.subrange(from as int, to as int),
            forall|k: int| 0 <= k < word@.len() ==> word@[k] == keyword@[k] as u8,
            forall|k: int| 0 <= k < i ==> ascii_upper(#[trigger] sub[k]) == keyword@[k] as u8,
        decreases word@.len() - i,
    {
        let b = bytes[from + i];
        let up = if 97 <= b && b <= 122 {
            b - 32
        } else {
            b
        };
        assert(sub[i as int] == b);
        if up != word[i] {
            return false;
        }
        i = i + 1;
    }
    true
}

/// The level that the keyword in `bytes[from..to]` stands for.
pub fn level_from_keyword(bytes: &[u8], from: usize, to: usize) -> (level: LogLevel)
    requires
        from <= to <= bytes@.len(),
    ensures
        level == keyword_level(bytes@.subrange(from as int, to as int)),
{
    proof {
        reveal_strlit("ERROR");
        reveal_strlit("FATAL");
        reveal_strlit("CRITICAL");
        reveal_strlit("WARN");
        reveal_strlit("WARNING");
        reveal_strlit("INFO");
        reveal_strlit("DEBUG");
        reveal_strlit("TRACE");
    }
    if matches_keyword(bytes, from, to, "ERROR") || matches_keyword(bytes, from, to, "FATAL")
        || matches_keyword(bytes, from, to, "CRITICAL") {
        LogLevel::Error
    } else if matches_keyword(bytes, from, to, "WARN") || matches_keyword(
        bytes,
        from,
        to,
        "WARNING",
    ) {
        LogLevel::Warn
    } else if matches_keyword(bytes, from, to, "INFO") {
        LogLevel::Info
    } else if matches_keyword(bytes, from, to, "DEBUG") {
        LogLevel::Debug
    } else if matches_keyword(bytes, from, to, "TRACE") {
        LogLevel::Trace
    } else {
        LogLevel::Unknown
    }
}

/// Cuts a line down to the part that is searched for a level keyword.
fn window_of(line: &str) -> (res: &str)
    ensures
        res@ == level_window(line@),
{
    broadcast use encode_utf8_valid_utf8, encode_utf8_decode_utf8;

    if line.as_bytes().len() <= LEVEL_WINDOW {
        return line;
    }
    let ghost bytes = line.spec_bytes();
    assert(valid_utf8(bytes));
    let mut at: usize = LEVEL_WINDOW;
    proof {
        is_char_boundary_start_end_of_seq(bytes);
    }
    while !line.is_char_boundary(at)
        invariant
            at <= LEVEL_WINDOW,
            bytes == line.spec_bytes(),
            is_char_boundary(bytes, 0),
            floor_char_boundary(bytes, LEVEL_WINDOW as int) == floor_char_boundary(bytes, at as int),
        decreases at,
    {
        at = at - 1;
    }
    let (head, _) = line.split_at(at);
    head
}

/// Classifies lines by severity. It holds the compiled level expression, so
/// that many lines can be classified with one compilation.
pub struct LevelClassifier {
    matcher: Option<Regex>,
}

impl LevelClassifier {
    #[verifier::type_invariant]
    spec fn holds_level_pattern(self) -> bool {
        self.matcher == regex_new(LEVEL_PATTERN@)
    }

    /// The compiled level expression that the classifier holds; `None`
    /// where the regex engine refuses the level pattern.
    pub closed spec fn expression(self) -> Option<Regex> {
        self.matcher
    }

    /// Compiles the level expression.
    pub fn new() -> (classifier: Self)
        ensures
            classifier.expression() == regex_new(LEVEL_PATTERN@),
    {
        let matcher = match compile(LEVEL_PATTERN) {
            Ok(re) => Some(re),
            Err(_) => None,
        };
        LevelClassifier { matcher }
    }

    /// Where the first level keyword stands in a text, the whole of it
    /// searched.
    pub fn find_keyword(&self, text: &str) -> (res: Option<(usize, usize)>)
        ensures
            res == keyword_place(text@),
            res matches Some((start, end)) ==> start <= end <= text.spec_bytes().len()
                && is_char_boundary(text.spec_bytes(), start as int) && is_char_boundary(
                text.spec_bytes(),
                end as int,
            ),
    {
        proof {
            use_type_invariant(self);
        }
        match &self.matcher {
            Some(re) => find(re, text),
            None => None,
        }
    }

    /// The level of a line: that of the first level keyword that stands as a
    /// whole word in the line's first `LEVEL_WINDOW` bytes.
    pub fn classify(&self, line: &str) -> (level: LogLevel)
        ensures
            level == level_of(line@),
    {
        proof {
            use_type_invariant(self);
        }
        match &self.matcher {
            Some(re) => {
                let window = window_of(line);
                match find(re, window) {
                    Some((start, end)) => level_from_keyword(window.as_bytes(), start, end),
                    None => LogLevel::Unknown,
                }
            },
            None => LogLevel::Unknown,
        }
    }
}

/// The level of a line: that of the first level keyword that stands as a
/// whole word in the line's first `LEVEL_WINDOW` bytes, `Unknown` where
/// there is none.
pub fn detect_level(line: &str) -> (level: LogLevel)
    ensures
        level == level_of(line@),
{
    LevelClassifier::new().classify(line)
}

/// The shapes of timestamp that are looked for, in the order in which they
/// are tried.
#[derive(Debug, Clone, Copy, PartialEq, Eq, Structural)]
pub enum TimestampKind {
    Iso8601,
    Iso8601Space,
    Syslog,
    Apache,
    UnixEpoch,
    SlashDate,
}

/// How many kinds of timestamp there are.
pub const KIND_COUNT: usize = 6;

pub const ISO8601_PATTERN: &'static str = r"\d{4}-\d{2}-\d{2}T\d{2}:\d{2}:\d{2}";

pub const ISO8601_SPACE_PATTERN: &'static str = r"\d{4}-\d{2}-\d{2} \d{2}:\d{2}:\d{2}";

pub const SYSLOG_PATTERN: &'static str = r"[A-Z][a-z]{2}\s+\d{1,2}\s+\d{2}:\d{2}:\d{2}";

pub const APACHE_PATTERN: &'static str = r"\d{2}/[A-Z][a-z]{2}/\d{4}:\d{2}:\d{2}:\d{2}";

pub const UNIX_EPOCH_PATTERN: &'static str = r"\b\d{10}(?:\.\d{1,6})?\b";

pub const SLASH_DATE_PATTERN: &'static str = r"\d{4}/\d{2}/\d{2} \d{2}:\d{2}:\d{2}";

pub const ISO8601_FORMAT: &'static str = "%Y-%m-%dT%H:%M:%S";

pub const ISO8601_SPACE_FORMAT: &'static str = "%Y-%m-%d %H:%M:%S";

pub const SYSLOG_FORMAT: &'static str = "%Y %b %d %H:%M:%S";

pub const APACHE_FORMAT: &'static str = "%d/%b/%Y:%H:%M:%S";

pub const SLASH_DATE_FORMAT: &'static str = "%Y/%m/%d %H:%M:%S";

/// The bytes of a date and time written with four digits for the year.
pub const DATETIME_BYTES: usize = 19;

impl TimestampKind {
    /// The place of a kind in the order in which the kinds are tried.
    pub open spec fn index(self) -> int {
        match self {
            TimestampKind::Iso8601 => 0,
            TimestampKind::Iso8601Space => 1,
            TimestampKind::Syslog => 2,
            TimestampKind::Apache => 3,
            TimestampKind::UnixEpoch => 4,
            TimestampKind::SlashDate => 5,
        }
    }

    /// The kind at a place in the order in which the kinds are tried.
    pub open spec fn at(k: int) -> TimestampKind {
        if k == 0 {
            TimestampKind::Iso8601
        } else if k == 1 {
            TimestampKind::Iso8601Space
        } else if k == 2 {
            TimestampKind::Syslog
        } else if k == 3 {
            TimestampKind::Apache
        } else if k == 4 {
            TimestampKind::UnixEpoch
        } else {
            TimestampKind::SlashDate
        }
    }

    /// The expression that finds a timestamp of this kind in a line.
    pub open spec fn pattern(self) -> Seq<char> {
        match self {
            TimestampKind::Iso8601 => ISO8601_PATTERN@,
            TimestampKind::Iso8601Space => ISO8601_SPACE_PATTERN@,
            TimestampKind::Syslog => SYSLOG_PATTERN@,
            TimestampKind::Apache => APACHE_PATTERN@,
            TimestampKind::UnixEpoch => UNIX_EPOCH_PATTERN@,
            TimestampKind::SlashDate => SLASH_DATE_PATTERN@,
        }
    }

    /// The kind at place `k` of the order in which the kinds are tried.
    pub fn from_index(k: usize) -> (kind: TimestampKind)
        ensures
            kind == TimestampKind::at(k as int),
            k < KIND_COUNT ==> kind.index() == k,
    {
        if k == 0 {
            TimestampKind::Iso8601
        } else if k == 1 {
            TimestampKind::Iso8601Space
        } else if k == 2 {
            TimestampKind::Syslog
        } else if k == 3 {
            TimestampKind::Apache
        } else if k == 4 {
            TimestampKind::UnixEpoch
        } else {
            TimestampKind::SlashDate
        }
    }

    /// The expression that finds a timestamp of this kind in a line.
    pub fn pattern_text(self) -> (res: &'static str)
        ensures
            res@ == self.pattern(),
    {
        match self {
            TimestampKind::Iso8601 => ISO8601_PATTERN,
            TimestampKind::Iso8601Space => ISO8601_SPACE_PATTERN,
            TimestampKind::Syslog => SYSLOG_PATTERN,
            TimestampKind::Apache => APACHE_PATTERN,
            TimestampKind::UnixEpoch => UNIX_EPOCH_PATTERN,
            TimestampKind::SlashDate => SLASH_DATE_PATTERN,
        }
    }
}

/// Whether every byte is an ASCII digit.
pub open spec fn all_digits(bytes: Seq<u8>) -> bool {
    forall|i: int| 0 <= i < bytes.len() ==> 48 <= #[trigger] bytes[i] <= 57
}

/// The number that ASCII digits write in base ten.
pub open spec fn digits_value(bytes: Seq<u8>) -> int
    decreases bytes.len(),
{
    if bytes.len() == 0 {
        0
    } else {
        digits_value(bytes.drop_last()) * 10 + (bytes.last() - 48)
    }
}

/// The milliseconds that the digits after a decimal point stand for: the
/// first three of them, with zeros where there are fewer.
pub open spec fn fraction_millis(digits: Seq<u8>) -> int {
    let tenths = if digits.len() > 0 {
        digits[0] - 48
    } else {
        0
    };
    let hundredths = if digits.len() > 1 {
        digits[1] - 48
    } else {
        0
    };
    let thousandths = if digits.len() > 2 {
        digits[2] - 48
    } else {
        0
    };
    tenths * 100 + hundredths * 10 + thousandths
}

/// The milliseconds since the start of 1970 that a count of seconds stands
/// for: ten digits, then possibly a point and one to six digits. Parts of a
/// millisecond are dropped. `None` for any other text.
pub open spec fn unix_epoch_millis(word: Seq<u8>) -> Option<i64> {
    if word.len() >= 10 && all_digits(word.take(10)) {
        let seconds = digits_value(word.take(10));
        if word.len() == 10 {
            Some((seconds * 1000) as i64)
        } else if word[10] == 46 && 12 <= word.len() <= 17 && all_digits(word.skip(11)) {
            Some((seconds * 1000 + fraction_millis(word.skip(11))) as i64)
        } else {
            None
        }
    } else {
        None
    }
}

/// The date and time that a word starts with, read under `format` from its
/// first `DATETIME_BYTES` bytes; `None` where the word is shorter or those
/// bytes end inside a character.
pub open spec fn leading_datetime(word: Seq<u8>, format: Seq<char>) -> Option<i64> {
    if word.len() >= DATETIME_BYTES && is_char_boundary(word, DATETIME_BYTES as int) {
        datetime_millis(decode_utf8(word.subrange(0, DATETIME_BYTES as int)), format)
    } else {
        None
    }
}

/// The milliseconds since the start of 1970 that a matched timestamp of a
/// kind stands for. `year` is put before a syslog timestamp, which has none.
pub open spec fn timestamp_millis(kind: TimestampKind, word: Seq<u8>, year: Seq<char>) -> Option<
    i64,
> {
    match kind {
        TimestampKind::Iso8601 => leading_datetime(word, ISO8601_FORMAT@),
        TimestampKind::Iso8601Space => leading_datetime(word, ISO8601_SPACE_FORMAT@),
        TimestampKind::Syslog => datetime_millis(
            year + " "@ + decode_utf8(word),
            SYSLOG_FORMAT@,
        ),
        TimestampKind::Apache => datetime_millis(decode_utf8(word), APACHE_FORMAT@),
        TimestampKind::UnixEpoch => unix_epoch_millis(word),
        TimestampKind::SlashDate => leading_datetime(word, SLASH_DATE_FORMAT@),
    }
}

/// The timestamp of a line: that of the leftmost match of `re` in it.
pub open spec fn epoch_millis(kind: TimestampKind, re: &Regex, line: Seq<char>, year: Seq<char>)
    -> Option<i64> {
    match regex_find(re, line) {
        Some((start, end)) => timestamp_millis(kind, encode_utf8(line).subrange(start, end), year),
        None => None,
    }
}

/// How many powers of ten: `10^n`.
pub open spec fn pow10(n: nat) -> nat
    decreases n,
{
    if n == 0 {
        1
    } else {
        10 * pow10((n - 1) as nat)
    }
}

/// Digits write a number below the power of ten of their count.
pub proof fn lemma_digits_bound(bytes: Seq<u8>)
    requires
        all_digits(bytes),
    ensures
        0 <= digits_value(bytes) < pow10(bytes.len()),
    decreases bytes.len(),
{
    if bytes.len() > 0 {
        assert(all_digits(bytes.drop_last())) by {
            assert forall|i: int| 0 <= i < bytes.drop_last().len() implies 48
                <= #[trigger] bytes.drop_last()[i] <= 57 by {
                assert(bytes.drop_last()[i] == bytes[i]);
            }
        }
        lemma_digits_bound(bytes.drop_last());
    }
}

/// Reads the number that `bytes[from..to]` writes in ASCII digits; `None`
/// where a byte is no digit.
fn read_digits(bytes: &[u8], from: usize, to: usize) -> (res: Option<u64>)
    requires
        from <= to <= bytes@.len(),
        to - from <= 10,
    ensures
        res is Some <==> all_digits(bytes@.subrange(from as int, to as int)),
        res matches Some(v) ==> v == digits_value(bytes@.subrange(from as int, to as int)),
{
    let ghost word = bytes@.subrange(from as int, to as int);
    let mut value: u64 = 0;
    let mut i: usize = from;
    proof {
        assert(word.take(0) =~= Seq::<u8>::empty());
        reveal_with_fuel(pow10, 11);
    }
    while i < to
        invariant
            from <= i <= to <= bytes@.len(),
            to - from <= 10,
            word == bytes@.subrange(from as int, to as int),
            all_digits(word.take(i - from)),
            value == digits_value(word.take(i - from)),
            value < pow10((i - from) as nat),
            pow10(10) == 10_000_000_000,
            forall|a: nat, b: nat| a <= b <= 10 ==> #[trigger] pow10(a) <= #[trigger] pow10(b),
        decreases to - i,
    {
        let b = bytes[i];
        let ghost next = word.take(i - from + 1);
        proof {
            assert(next.drop_last() =~= word.take(i - from));
            assert(next.last() == b);
        }
        if b < 48 || b > 57 {
            proof {
                assert(word[i - from] == b);
            }
            return None;
        }
        proof {
            assert(all_digits(next)) by {
                assert forall|k: int| 0 <= k < next.len() implies 48 <= #[trigger] next[k]
                    <= 57 by {
                    if k < i - from {
                        assert(word.take(i - from)[k] == next[k]);
                    }
                }
            }
            lemma_digits_bound(next);
            assert(pow10((i - from) as nat) <= pow10(10));
        }
        value = value * 10 + (b - 48) as u64;
        i = i + 1;
    }
    proof {
        assert(word.take(to - from) =~= word);
    }
    Some(value)
}

/// Reads a count of seconds, with or without a fraction, as milliseconds.
pub fn parse_unix_epoch(word: &[u8]) -> (res: Option<i64>)
    ensures
        res == unix_epoch_millis(word@),
{
    let n = word.len();
    if n < 10 {
        return None;
    }
    proof {
        assert(word@.subrange(0, 10) =~= word@.take(10));
        reveal_with_fuel(pow10, 11);
    }
    let seconds = match read_digits(word, 0, 10) {
        Some(v) => v,
        None => {
            return None;
        },
    };
    proof {
        lemma_digits_bound(word@.take(10));
    }
    if n == 10 {
        return Some((seconds * 1000) as i64);
    }
    if word[10] != 46 || n < 12 || n > 17 {
        return None;
    }
    proof {
        assert(word@.subrange(11, n as int) =~= word@.skip(11));
    }
    if read_digits(word, 11, n).is_none() {
        return None;
    }
    let tenths = (word[11] - 48) as u64;
    let hundredths = if n > 12 {
        (word[12] - 48) as u64
    } else {
        0
    };
    let thousandths = if n > 13 {
        (word[13] - 48) as u64
    } else {
        0
    };
    proof {
        let digits = word@.skip(11);
        assert(digits[0] == word@[11]);
        if n > 12 {
            assert(digits[1] == word@[12]);
        }
        if n > 13 {
            assert(digits[2] == word@[13]);
        }
    }
    Some((seconds * 1000 + tenths * 100 + hundredths * 10 + thousandths) as i64)
}

/// The date and time at the start of a matched word.
fn parse_leading_datetime(word: &str, format: &str) -> (res: Option<i64>)
    ensures
        res == leading_datetime(word.spec_bytes(), format@),
{
    broadcast use encode_utf8_valid_utf8;

    if word.as_bytes().len() < DATETIME_BYTES {
        return None;
    }
    if !word.is_char_boundary(DATETIME_BYTES) {
        return None;
    }
    proof {
        is_char_boundary_start_end_of_seq(word.spec_bytes());
    }
    let head = substring(word, 0, DATETIME_BYTES);
    parse_datetime_millis(head, format)
}

/// The timestamp format of a file: what finds a timestamp in a line, and
/// how it is read.
#[derive(Debug)]
pub struct TimestampFormat {
    pub regex: Regex,
    pub kind: TimestampKind,
}

impl Clone for TimestampFormat {
    fn clone(&self) -> (res: Self)
        ensures
            res == *self,
    {
        TimestampFormat { regex: self.regex.clone(), kind: self.kind }
    }
}

/// The texts of lines.
pub open spec fn texts_of(lines: Seq<&str>) -> Seq<Seq<char>> {
    Seq::new(lines.len(), |i: int| lines[i]@)
}

/// How many of the lines an expression matches.
pub open spec fn matching_lines(re: &Regex, lines: Seq<Seq<char>>) -> nat
    decreases lines.len(),
{
    if lines.len() == 0 {
        0
    } else {
        matching_lines(re, lines.drop_last()) + if regex_matches(re, lines.last()) {
            1nat
        } else {
            0nat
        }
    }
}

/// The compiled expression of the kind at place `k`.
pub open spec fn kind_regex(k: int) -> Option<Regex> {
    regex_new(TimestampKind::at(k).pattern())
}

/// How many of the lines hold a timestamp of the kind at place `k`.
pub open spec fn kind_matches(k: int, lines: Seq<Seq<char>>) -> nat {
    match kind_regex(k) {
        Some(re) => matching_lines(&re, lines),
        None => 0,
    }
}

/// Whether `k` is the place of the first greatest count, and that count is
/// not zero.
pub open spec fn is_first_greatest(counts: Seq<usize>, k: int) -> bool {
    &&& 0 <= k < counts.len()
    &&& counts[k] > 0
    &&& forall|j: int| 0 <= j < k ==> counts[j] < counts[k]
    &&& forall|j: int| k < j < counts.len() ==> counts[j] <= counts[k]
}

/// The place of the first greatest count; `None` where every count is zero.
pub fn first_greatest(counts: &[usize]) -> (res: Option<usize>)
    ensures
        match res {
            Some(k) => is_first_greatest(counts@, k as int),
            None => forall|j: int| 0 <= j < counts@.len() ==> counts@[j] == 0,
        },
{
    let mut best: Option<usize> = None;
    let mut best_count: usize = 0;
    let mut k: usize = 0;
    while k < counts.len()
        invariant
            k <= counts@.len(),
            match best {
                Some(b) => is_first_greatest(counts@.take(k as int), b as int) && best_count
                    == counts@[b as int],
                None => best_count == 0 && forall|j: int| 0 <= j < k ==> counts@[j] == 0,
            },
        decreases counts@.len() - k,
    {
        if counts[k] > best_count {
            best_count = counts[k];
            best = Some(k);
        }
        k = k + 1;
    }
    proof {
        assert(counts@.take(k as int) =~= counts@);
    }
    best
}

/// Counts the lines that an expression matches.
fn count_matching(re: &Regex, lines: &[&str]) -> (count: usize)
    ensures
        count == matching_lines(re, texts_of(lines@)),
{
    let ghost texts = texts_of(lines@);
    let mut count: usize = 0;
    let mut i: usize = 0;
    proof {
        assert(texts.take(0) =~= Seq::<Seq<char>>::empty());
    }
    while i < lines.len()
        invariant
            i <= lines@.len(),
            texts == texts_of(lines@),
            count == matching_lines(re, texts.take(i as int)),
            count <= i,
        decreases lines@.len() - i,
    {
        proof {
            assert(texts.take(i + 1).drop_last() =~= texts.take(i as int));
            assert(texts.take(i + 1).last() == lines@[i as int]@);
        }
        if is_match(re, lines[i]) {
            count = count + 1;
        }
        i = i + 1;
    }
    proof {
        assert(texts.take(i as int) =~= texts);
    }
    count
}

/// Whether `res` is the format that the sample lines speak for: the kind
/// of timestamp that most of the lines hold, the one tried first among
/// kinds that as many lines hold; none where no line holds a timestamp of
/// any kind, or where the regex engine refuses one of the expressions.
pub open spec fn is_detected(lines: Seq<Seq<char>>, res: Option<TimestampFormat>) -> bool {
    match res {
        Some(format) => {
            &&& forall|k: int| 0 <= k < KIND_COUNT ==> kind_regex(k) is Some
            &&& kind_regex(format.kind.index()) == Some(format.regex)
            &&& is_first_greatest(
                Seq::new(KIND_COUNT as nat, |k: int| kind_matches(k, lines) as usize),
                format.kind.index(),
            )
        },
        None => (exists|k: int| 0 <= k < KIND_COUNT && kind_regex(k) is None) || forall|k: int|
            0 <= k < KIND_COUNT ==> kind_matches(k, lines) == 0,
    }
}

impl TimestampFormat {
    /// Picks the kind of timestamp that most of the sample lines hold; among
    /// kinds that as many lines hold, the one tried first. `None` where no
    /// line holds a timestamp of any kind.
    pub fn detect(lines: &[&str]) -> (res: Option<Self>)
        ensures
            is_detected(texts_of(lines@), res),
    {
        let mut counts: Vec<usize> = Vec::new();
        let mut compiled: Vec<Regex> = Vec::new();
        let mut k: usize = 0;
        while k < KIND_COUNT
            invariant
                k <= KIND_COUNT,
                counts@.len() == k,
                compiled@.len() == k,
                forall|j: int| 0 <= j < k ==> kind_regex(j) == Some(#[trigger] compiled@[j]),
                forall|j: int| 0 <= j < k ==> #[trigger] counts@[j] == kind_matches(j, texts_of(lines@)),
            decreases KIND_COUNT - k,
        {
            let kind = TimestampKind::from_index(k);
            match compile(kind.pattern_text()) {
                Ok(re) => {
                    let count = count_matching(&re, lines);
                    counts.push(count);
                    compiled.push(re);
                },
                Err(_) => {
                    return None;
                },
            }
            k = k + 1;
        }
        let ghost expected = Seq::new(
            KIND_COUNT as nat,
            |k: int| kind_matches(k, texts_of(lines@)) as usize,
        );
        proof {
            assert(counts@ =~= expected);
            assert forall|j: int| 0 <= j < KIND_COUNT implies kind_regex(j) is Some by {
                assert(kind_regex(j) == Some(compiled@[j]));
            }
        }
        match first_greatest(counts.as_slice()) {
            Some(best) => {
                let kind = TimestampKind::from_index(best);
                Some(TimestampFormat { regex: compiled[best].clone(), kind })
            },
            None => {
                proof {
                    assert forall|j: int| 0 <= j < KIND_COUNT implies kind_matches(
                        j,
                        texts_of(lines@),
                    ) == 0 by {
                        assert(counts@[j] == 0);
                    }
                }
                None
            },
        }
    }

    /// The timestamp of a line, with `year` taken for the year that a syslog
    /// timestamp does not name. `None` where the line holds no timestamp or
    /// what it holds names no date and time.
    pub fn parse_epoch_ms_in_year(&self, line: &str, year: &str) -> (res: Option<i64>)
        ensures
            res == epoch_millis(self.kind, &self.regex, line@, year@),
    {
        broadcast use encode_utf8_decode_utf8;

        let (start, end) = match find(&self.regex, line) {
            Some(range) => range,
            None => {
                return None;
            },
        };
        let word = substring(line, start, end);
        match self.kind {
            TimestampKind::Iso8601 => parse_leading_datetime(word, ISO8601_FORMAT),
            TimestampKind::Iso8601Space => parse_leading_datetime(word, ISO8601_SPACE_FORMAT),
            TimestampKind::Syslog => {
                let mut dated = year.to_owned();
                dated.append(" ");
                dated.append(word);
                parse_datetime_millis(dated.as_str(), SYSLOG_FORMAT)
            },
            TimestampKind::Apache => parse_datetime_millis(word, APACHE_FORMAT),
            TimestampKind::UnixEpoch => parse_unix_epoch(word.as_bytes()),
            TimestampKind::SlashDate => parse_leading_datetime(word, SLASH_DATE_FORMAT),
        }
    }

    /// The timestamp of a line. A syslog timestamp names no year: the
    /// current year, read from the clock, is taken for it.
    pub fn parse_epoch_ms(&self, line: &str) -> (res: Option<i64>)
        ensures
            exists|year: Seq<char>| res == epoch_millis(self.kind, &self.regex, line@, year),
            self.kind != TimestampKind::Syslog ==> res == epoch_millis(
                self.kind,
                &self.regex,
                line@,
                Seq::empty(),
            ),
    {
        match self.kind {
            TimestampKind::Syslog => {
                let year = current_year();
                self.parse_epoch_ms_in_year(line, year.as_str())
            },
            _ => {
                proof {
                    reveal_strlit("");
                    assert(""@ =~= Seq::<char>::empty());
                }
                self.parse_epoch_ms_in_year(line, "")
            },
        }
    }
}

} // verus!
