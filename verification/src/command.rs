//! What is typed behind a slash: the command, what is given to it, and
//! the numbers and steps of time that some commands take.

use crate::chars::{chars_of, string_of};
use crate::log::parser::{all_digits, digits_value};
use crate::numbers::{decimal_of, parse_decimal, PLUS};
use crate::text::{after_first_byte, trim_text, trimmed};
use vstd::prelude::*;
use vstd::string::*;
use vstd::utf8::*;

verus! {

/// The commands.
#[derive(Debug, Clone, Copy, PartialEq, Eq, Structural)]
pub enum CommandKind {
    RegexSearch,
    Quit,
    Top,
    Bottom,
    Help,
    Follow,
    Color,
    Wrap,
    Delta,
    Filter,
    Time,
    Go,
    Bookmark,
    Bookmarks,
    Notify,
    Notifications,
    Config,
    Theme,
    Unknown,
}

/// A command as it was typed: which command it is, the name it was called
/// by, and what was given to it.
pub struct Command {
    pub kind: CommandKind,
    pub name: String,
    pub arg: String,
}

/// What a command line holds behind the slash that it may start with.
pub open spec fn without_slash(input: Seq<char>) -> Seq<char> {
    if input.len() > 0 && input[0] == '/' {
        input.skip(1)
    } else {
        input
    }
}

/// The place of the first blank of a text from `from` on; the length of
/// the text where there is none.
pub open spec fn first_blank(text: Seq<char>, from: int) -> int
    decreases text.len() - from,
{
    if from < 0 || from >= text.len() {
        text.len() as int
    } else if text[from] == ' ' {
        from
    } else {
        first_blank(text, from + 1)
    }
}

/// The name that a command line calls its command by: what stands before
/// its first blank.
pub open spec fn command_name(input: Seq<char>) -> Seq<char> {
    let body = without_slash(input);
    body.take(first_blank(body, 0))
}

/// What a command line gives to its command: what stands behind its first
/// blank, without the whitespace around it.
pub open spec fn command_arg(input: Seq<char>) -> Seq<char> {
    let body = without_slash(input);
    let at = first_blank(body, 0);
    if 0 <= at < body.len() {
        trimmed(body.skip(at + 1))
    } else {
        trimmed(Seq::empty())
    }
}

/// The command that a name stands for.
pub open spec fn kind_of(name: Seq<char>) -> CommandKind {
    if name == "regex"@ || name == "r"@ {
        CommandKind::RegexSearch
    } else if name == "quit"@ || name == "q"@ || name == "exit"@ || name == "x"@ {
        CommandKind::Quit
    } else if name == "top"@ {
        CommandKind::Top
    } else if name == "bottom"@ || name == "end"@ {
        CommandKind::Bottom
    } else if name == "help"@ {
        CommandKind::Help
    } else if name == "follow"@ || name == "f"@ {
        CommandKind::Follow
    } else if name == "color"@ || name == "c"@ {
        CommandKind::Color
    } else if name == "wrap"@ || name == "w"@ {
        CommandKind::Wrap
    } else if name == "delta"@ || name == "d"@ {
        CommandKind::Delta
    } else if name == "filter"@ || name == "fi"@ || name == "only-show"@ {
        CommandKind::Filter
    } else if name == "time"@ || name == "t"@ {
        CommandKind::Time
    } else if name == "go"@ || name == "g"@ {
        CommandKind::Go
    } else if name == "bookmark"@ || name == "bm"@ || name == "b"@ {
        CommandKind::Bookmark
    } else if name == "bookmarks"@ || name == "bs"@ {
        CommandKind::Bookmarks
    } else if name == "notify"@ || name == "n"@ {
        CommandKind::Notify
    } else if name == "notifications"@ || name == "ns"@ {
        CommandKind::Notifications
    } else if name == "config"@ || name == "settings"@ {
        CommandKind::Config
    } else if name == "theme"@ {
        CommandKind::Theme
    } else {
        CommandKind::Unknown
    }
}

/// Whether characters make up a word.
pub fn is_word(chars: &[char], word: &str) -> (same: bool)
    ensures
        same == (chars@ == word@),
{
    let wanted = chars_of(word);
    if wanted.len() != chars.len() {
        return false;
    }
    let mut i: usize = 0;
    while i < chars.len()
        invariant
            i <= chars@.len(),
            wanted@ == word@,
            wanted@.len() == chars@.len(),
            forall|k: int| 0 <= k < i ==> chars@[k] == wanted@[k],
        decreases chars@.len() - i,
    {
        if chars[i] != wanted[i] {
            return false;
        }
        i = i + 1;
    }
    proof {
        assert(chars@ =~= wanted@);
    }
    true
}

/// The command that a name stands for.
pub fn command_kind(name: &[char]) -> (kind: CommandKind)
    ensures
        kind == kind_of(name@),
{
    if is_word(name, "regex") || is_word(name, "r") {
        CommandKind::RegexSearch
    } else if is_word(name, "quit") || is_word(name, "q") || is_word(name, "exit") || is_word(
        name,
        "x",
    ) {
        CommandKind::Quit
    } else if is_word(name, "top") {
        CommandKind::Top
    } else if is_word(name, "bottom") || is_word(name, "end") {
        CommandKind::Bottom
    } else if is_word(name, "help") {
        CommandKind::Help
    } else if is_word(name, "follow") || is_word(name, "f") {
        CommandKind::Follow
    } else if is_word(name, "color") || is_word(name, "c") {
        CommandKind::Color
    } else if is_word(name, "wrap") || is_word(name, "w") {
        CommandKind::Wrap
    } else if is_word(name, "delta") || is_word(name, "d") {
        CommandKind::Delta
    } else if is_word(name, "filter") || is_word(name, "fi") || is_word(name, "only-show") {
        CommandKind::Filter
    } else if is_word(name, "time") || is_word(name, "t") {
        CommandKind::Time
    } else if is_word(name, "go") || is_word(name, "g") {
        CommandKind::Go
    } else if is_word(name, "bookmark") || is_word(name, "bm") || is_word(name, "b") {
        CommandKind::Bookmark
    } else if is_word(name, "bookmarks") || is_word(name, "bs") {
        CommandKind::Bookmarks
    } else if is_word(name, "notify") || is_word(name, "n") {
        CommandKind::Notify
    } else if is_word(name, "notifications") || is_word(name, "ns") {
        CommandKind::Notifications
    } else if is_word(name, "config") || is_word(name, "settings") {
        CommandKind::Config
    } else if is_word(name, "theme") {
        CommandKind::Theme
    } else {
        CommandKind::Unknown
    }
}

/// Reads a command line: the name before the first blank says which
/// command it is, and what follows is given to the command.
pub fn parse_command(input: &str) -> (command: Command)
    ensures
        command.name@ == command_name(input@),
        command.arg@ == command_arg(input@),
        command.kind == kind_of(command_name(input@)),
{
    let chars = chars_of(input);
    let n = chars.len();
    let start: usize = if n > 0 && chars[0] == '/' {
        1
    } else {
        0
    };
    let ghost body = without_slash(chars@);
    proof {
        assert(body =~= chars@.subrange(start as int, n as int));
    }
    let mut at: usize = start;
    while at < n && chars[at] != ' '
        invariant
            start <= at <= n,
            n == chars@.len(),
            body == chars@.subrange(start as int, n as int),
            first_blank(body, 0) == first_blank(body, at - start),
        decreases n - at,
    {
        proof {
            assert(body[at - start] == chars@[at as int]);
        }
        at = at + 1;
    }
    proof {
        if at < n {
            assert(body[at - start] == chars@[at as int]);
        }
        assert(first_blank(body, 0) == at - start);
    }
    let name_chars = vstd::slice::slice_subrange(chars.as_slice(), start, at);
    proof {
        assert(name_chars@ =~= body.take(at - start));
    }
    let kind = command_kind(name_chars);
    let name = string_of(name_chars);
    let rest = if at < n {
        let tail = vstd::slice::slice_subrange(chars.as_slice(), at + 1, n);
        proof {
            assert(tail@ =~= body.skip(at - start + 1));
        }
        string_of(tail)
    } else {
        String::new()
    };
    let arg = trim_text(rest.as_str()).to_owned();
    Command { kind, name, arg }
}

/// The number behind a plus sign: a line to go to, as it is given on the
/// command line. `None` for a text that does not start with a plus sign or
/// holds no number behind it.
pub open spec fn plus_number(text: Seq<u8>) -> Option<usize> {
    if text.len() > 0 && text[0] == PLUS {
        decimal_of(text.skip(1))
    } else {
        None
    }
}

/// Reads the number behind a plus sign.
pub fn parse_plus_number(text: &str) -> (res: Option<usize>)
    ensures
        res == plus_number(text.spec_bytes()),
{
    let bytes = text.as_bytes();
    if bytes.len() > 0 && bytes[0] == PLUS {
        parse_decimal(after_first_byte(text))
    } else {
        None
    }
}

/// The text of an argument, where there is one.
pub open spec fn arg_bytes(arg: Option<String>) -> Seq<u8> {
    match arg {
        Some(text) => encode_utf8(text@),
        None => Seq::empty(),
    }
}

/// Sorts out the arguments of the command line: the file to open and the
/// line to go to. A first argument that is a plus sign and a number is a
/// line and no file; a second argument of that form is a line, the one
/// that counts where both are.
pub fn parse_file_arg(file: Option<String>, extra: Option<String>) -> (res: (
    Option<String>,
    Option<usize>,
))
    ensures
        res.0 == if plus_number(arg_bytes(file)) is Some {
            None
        } else {
            file
        },
        res.1 == if plus_number(arg_bytes(extra)) is Some {
            plus_number(arg_bytes(extra))
        } else {
            plus_number(arg_bytes(file))
        },
{
    let first = match &file {
        Some(arg) => parse_plus_number(arg.as_str()),
        None => None,
    };
    let second = match &extra {
        Some(arg) => parse_plus_number(arg.as_str()),
        None => None,
    };
    let path = if first.is_some() {
        None
    } else {
        file
    };
    let jump = if second.is_some() {
        second
    } else {
        first
    };
    (path, jump)
}

/// The milliseconds of a second, a minute and an hour.
pub const SECOND_MS: i64 = 1000;

pub const MINUTE_MS: i64 = 60_000;

pub const HOUR_MS: i64 = 3_600_000;

/// Why a step of time could not be read.
#[derive(Debug, Clone, Copy, PartialEq, Eq, Structural)]
pub enum OffsetError {
    /// The step does not end in `s`, `m` or `h`.
    NoUnit,
    /// What stands before the unit is no number, or the step is too great.
    InvalidNumber,
}

/// The milliseconds that the unit at the end of a step stands for.
pub open spec fn unit_millis(unit: u8) -> Option<i64> {
    if unit == 115 {
        Some(SECOND_MS)
    } else if unit == 109 {
        Some(MINUTE_MS)
    } else if unit == 104 {
        Some(HOUR_MS)
    } else {
        None
    }
}

/// The number that a text writes with a sign or without one: its digits'
/// value, negative behind a minus sign. `None` where the text holds no
/// digit or anything else but a sign and digits.
pub open spec fn signed_of(text: Seq<u8>) -> Option<int> {
    let negative = text.len() > 0 && text[0] == 45;
    let digits = if text.len() > 0 && (text[0] == 45 || text[0] == PLUS) {
        text.skip(1)
    } else {
        text
    };
    if digits.len() > 0 && all_digits(digits) {
        if negative {
            Some(-digits_value(digits))
        } else {
            Some(digits_value(digits))
        }
    } else {
        None
    }
}

/// The greatest step of time that is taken, in milliseconds: well over two
/// hundred thousand years.
pub const OFFSET_LIMIT: i64 = 9_000_000_000_000_000;

/// The milliseconds that a step of time stands for: a sign, a number and
/// a unit, as in `-5m`, `+30s` or `-1h`. The sign in front says whether the
/// step goes forward or back. A step beyond `OFFSET_LIMIT` is refused.
#[verifier::opaque]
pub open spec fn offset_of(input: Seq<u8>) -> Result<i64, OffsetError> {
    if input.len() < 2 || unit_millis(input.last()) is None {
        Err(OffsetError::NoUnit)
    } else {
        let sign: int = if input[0] == 45 {
            -1
        } else {
            1
        };
        match signed_of(input.subrange(1, input.len() - 1)) {
            Some(number) => {
                let millis = sign * number * unit_millis(input.last()).unwrap();
                if -OFFSET_LIMIT <= millis <= OFFSET_LIMIT {
                    Ok(millis as i64)
                } else {
                    Err(OffsetError::InvalidNumber)
                }
            },
            None => Err(OffsetError::InvalidNumber),
        }
    }
}

/// Reads the digits `bytes[from..to]` as a number up to `OFFSET_LIMIT`;
/// `None` where a byte is no digit or the number is greater.
fn read_bounded(bytes: &[u8], from: usize, to: usize) -> (res: Option<i64>)
    requires
        from <= to <= bytes@.len(),
    ensures
        match res {
            Some(v) => all_digits(bytes@.subrange(from as int, to as int)) && v == digits_value(
                bytes@.subrange(from as int, to as int),
            ) && 0 <= v <= OFFSET_LIMIT,
            None => !all_digits(bytes@.subrange(from as int, to as int)) || digits_value(
                bytes@.subrange(from as int, to as int),
            ) > OFFSET_LIMIT,
        },
{
    let ghost word = bytes@.subrange(from as int, to as int);
    let mut value: i64 = 0;
    let mut i: usize = from;
    proof {
        assert(word.take(0) =~= Seq::<u8>::empty());
    }
    while i < to
        invariant
            from <= i <= to <= bytes@.len(),
            word == bytes@.subrange(from as int, to as int),
            all_digits(word.take(i - from)),
            value == digits_value(word.take(i - from)),
            0 <= value <= OFFSET_LIMIT,
        decreases to - i,
    {
        let b = bytes[i];
        let ghost next = word.take(i - from + 1);
        proof {
            assert(next.drop_last() =~= word.take(i - from));
            assert(next.last() == b);
            assert(word[i - from] == b);
        }
        if b < 48 || b > 57 {
            return None;
        }
        proof {
            assert(all_digits(next)) by {
                assert forall|k: int| 0 <= k < next.len() implies 48 <= #[trigger] next[k]
                    <= 57 by {
                    if k < i - from {
                        assert(word.take(i - from)[k] == next[k]);
                    }
                }
            }
        }
        let d = (b - 48) as i64;
        if value > (OFFSET_LIMIT - d) / 10 {
            proof {
                assert(digits_value(next) > OFFSET_LIMIT);
                if all_digits(word) {
                    crate::numbers::lemma_digits_grow(word, i - from + 1);
                }
            }
            return None;
        }
        value = value * 10 + d;
        i = i + 1;
    }
    proof {
        assert(word.take(to - from) =~= word);
    }
    Some(value)
}

/// Reads a step of time, as in `-5m`, `+30s` or `-1h`, in milliseconds.
pub fn parse_time_offset(input: &str) -> (res: Result<i64, OffsetError>)
    ensures
        res == offset_of(input.spec_bytes()),
{
    proof {
        reveal(offset_of);
    }
    let bytes = input.as_bytes();
    let n = bytes.len();
    if n < 2 {
        return Err(OffsetError::NoUnit);
    }
    let last = bytes[n - 1];
    let unit: i64 = if last == 115 {
        SECOND_MS
    } else if last == 109 {
        MINUTE_MS
    } else if last == 104 {
        HOUR_MS
    } else {
        return Err(OffsetError::NoUnit);
    };
    let forward = bytes[0] != 45;
    let ghost number = bytes@.subrange(1, n - 1);
    let mut from: usize = 1;
    let mut negative = false;
    if from < n - 1 && (bytes[from] == 45 || bytes[from] == PLUS) {
        negative = bytes[from] == 45;
        from = from + 1;
    }
    if from >= n - 1 {
        proof {
            if from == 2 {
                assert(number.skip(1) =~= Seq::<u8>::empty());
            }
            assert(signed_of(number) is None);
        }
        return Err(OffsetError::InvalidNumber);
    }
    let ghost digits = bytes@.subrange(from as int, n - 1);
    proof {
        if from == 2 {
            assert(digits =~= number.skip(1));
        } else {
            assert(digits =~= number);
            assert(number[0] == bytes@[1]);
        }
    }
    let magnitude = match read_bounded(bytes, from, n - 1) {
        Some(v) => v,
        None => {
            proof {
                if all_digits(digits) {
                    let value = digits_value(digits);
                    let step = unit as int;
                    assert(value * step > OFFSET_LIMIT) by (nonlinear_arith)
                        requires
                            value > OFFSET_LIMIT,
                            step >= 1000,
                    ;
                    assert(-1 * value * step == -(value * step)) by (nonlinear_arith);
                    assert(1 * value * step == value * step) by (nonlinear_arith);
                    assert(-1 * (-value) * step == value * step) by (nonlinear_arith);
                    assert(1 * (-value) * step == -(value * step)) by (nonlinear_arith);
                }
            }
            return Err(OffsetError::InvalidNumber);
        },
    };
    proof {
        let value = magnitude as int;
        let step = unit as int;
        assert(-1 * value * step == -(value * step)) by (nonlinear_arith);
        assert(1 * value * step == value * step) by (nonlinear_arith);
        assert(-1 * (-value) * step == value * step) by (nonlinear_arith);
        assert(1 * (-value) * step == -(value * step)) by (nonlinear_arith);
    }
    if magnitude > OFFSET_LIMIT / unit {
        proof {
            let value = magnitude as int;
            let step = unit as int;
            assert(value * step > OFFSET_LIMIT) by (nonlinear_arith)
                requires
                    value > (OFFSET_LIMIT as int) / step,
                    step > 0,
            ;
        }
        return Err(OffsetError::InvalidNumber);
    }
    proof {
        let value = magnitude as int;
        let step = unit as int;
        assert(0 <= value * step <= OFFSET_LIMIT) by (nonlinear_arith)
            requires
                0 <= value <= (OFFSET_LIMIT as int) / step,
                step > 0,
        ;
    }
    let millis = magnitude * unit;
    if negative == forward {
        Ok(-millis)
    } else {
        Ok(millis)
    }
}

} // verus!
