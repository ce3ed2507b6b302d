//! The input line: a text and a cursor in it, and what the keys do to
//! them. The cursor is a place in the text's bytes.

use crate::chars::{chars_of, lemma_encode_push, string_of, utf8_width};
use vstd::prelude::*;
use vstd::string::*;
use vstd::utf8::*;

verus! {

/// The character that a cursor at byte `cursor` stands before: the first
/// character from `k` on that has `cursor` bytes or more before it; the
/// number of characters where there is none.
pub open spec fn cursor_char_from(text: Seq<char>, cursor: int, k: int) -> int
    decreases text.len() - k,
{
    if k < 0 || k >= text.len() {
        text.len() as int
    } else if encode_utf8(text.take(k)).len() >= cursor {
        k
    } else {
        cursor_char_from(text, cursor, k + 1)
    }
}

/// The character that a cursor at byte `cursor` stands before.
pub open spec fn cursor_char(text: Seq<char>, cursor: int) -> int {
    cursor_char_from(text, cursor, 0)
}

/// A text with a cursor in it, the cursor given by the character that it
/// stands before.
pub struct Edit {
    pub text: Seq<char>,
    pub at: int,
}

/// The text with `ch` put in before character `at`, and the cursor behind
/// it.
pub open spec fn typed(text: Seq<char>, at: int, ch: char) -> Edit {
    Edit { text: text.take(at) + seq![ch] + text.skip(at), at: at + 1 }
}

/// The text without the character before the cursor, and the cursor in
/// its place; unchanged at the start of the text.
pub open spec fn erased_before(text: Seq<char>, at: int) -> Edit {
    if 0 < at <= text.len() {
        Edit { text: text.take(at - 1) + text.skip(at), at: at - 1 }
    } else {
        Edit { text, at }
    }
}

/// The text without the character at the cursor; unchanged at the end of
/// the text.
pub open spec fn erased_at(text: Seq<char>, at: int) -> Edit {
    if 0 <= at < text.len() {
        Edit { text: text.take(at) + text.skip(at + 1), at }
    } else {
        Edit { text, at }
    }
}

/// The characters of a text. A text has no more bytes than the machine
/// can count.
fn chars_within(text: &str) -> (chars: Vec<char>)
    ensures
        chars@ == text@,
        encode_utf8(chars@).len() <= usize::MAX,
{
    let len = text.as_bytes().len();
    let chars = chars_of(text);
    assert(len == encode_utf8(chars@).len());
    chars
}

/// Finds the character that a cursor at byte `cursor` stands before.
pub fn char_at_cursor(chars: &[char], cursor: usize) -> (k: usize)
    requires
        encode_utf8(chars@).len() <= usize::MAX,
    ensures
        k == cursor_char(chars@, cursor as int),
        k <= chars@.len(),
{
    let mut k: usize = 0;
    let mut at: usize = 0;
    proof {
        assert(chars@.take(0) =~= Seq::<char>::empty());
    }
    while k < chars.len() && at < cursor
        invariant
            k <= chars@.len(),
            encode_utf8(chars@).len() <= usize::MAX,
            at == encode_utf8(chars@.take(k as int)).len(),
            cursor_char(chars@, cursor as int) == cursor_char_from(chars@, cursor as int, k as int),
        decreases chars@.len() - k,
    {
        proof {
            assert(chars@.take(k + 1) =~= chars@.take(k as int).push(chars@[k as int]));
            lemma_encode_push(chars@.take(k as int), chars@[k as int]);
            crate::chars::lemma_prefix_is_shorter(chars@, k + 1);
        }
        at = at + utf8_width(chars[k]);
        k = k + 1;
    }
    k
}

/// How many bytes the first `count` characters have.
pub fn bytes_of_prefix(chars: &[char], count: usize) -> (bytes: usize)
    requires
        count <= chars@.len(),
        encode_utf8(chars@).len() <= usize::MAX,
    ensures
        bytes == encode_utf8(chars@.take(count as int)).len(),
{
    let mut at: usize = 0;
    let mut i: usize = 0;
    proof {
        assert(chars@.take(0) =~= Seq::<char>::empty());
        crate::chars::lemma_prefix_is_shorter(chars@, 0);
    }
    while i < count
        invariant
            i <= count <= chars@.len(),
            encode_utf8(chars@).len() <= usize::MAX,
            at == encode_utf8(chars@.take(i as int)).len(),
        decreases count - i,
    {
        proof {
            assert(chars@.take(i + 1) =~= chars@.take(i as int).push(chars@[i as int]));
            lemma_encode_push(chars@.take(i as int), chars@[i as int]);
            crate::chars::lemma_prefix_is_shorter(chars@, i + 1);
        }
        at = at + utf8_width(chars[i]);
        i = i + 1;
    }
    at
}

/// Makes a text of characters and gives the place of character `at` in
/// its bytes.
fn finish(chars: Vec<char>, at: usize) -> (res: (String, usize))
    requires
        at <= chars@.len(),
    ensures
        res.0@ == chars@,
        res.1 == encode_utf8(chars@.take(at as int)).len(),
{
    let text = string_of(chars.as_slice());
    let len = text.as_str().as_bytes().len();
    assert(len == encode_utf8(chars@).len());
    let cursor = bytes_of_prefix(chars.as_slice(), at);
    (text, cursor)
}

/// Puts a character into a text at the cursor and moves the cursor behind
/// it.
pub fn insert_char(text: &str, cursor: usize, ch: char) -> (res: (String, usize))
    ensures
        res.0@ == typed(text@, cursor_char(text@, cursor as int), ch).text,
        res.1 == encode_utf8(
            res.0@.take(typed(text@, cursor_char(text@, cursor as int), ch).at),
        ).len(),
{
    let chars = chars_within(text);
    let at = char_at_cursor(chars.as_slice(), cursor);
    let mut out: Vec<char> = Vec::new();
    let mut i: usize = 0;
    while i < at
        invariant
            i <= at <= chars@.len(),
            out@ == chars@.take(i as int),
        decreases at - i,
    {
        out.push(chars[i]);
        proof {
            assert(out@ =~= chars@.take(i + 1));
        }
        i = i + 1;
    }
    out.push(ch);
    while i < chars.len()
        invariant
            at <= i <= chars@.len(),
            out@ == chars@.take(at as int) + seq![ch] + chars@.subrange(at as int, i as int),
        decreases chars@.len() - i,
    {
        out.push(chars[i]);
        proof {
            assert(out@ =~= chars@.take(at as int) + seq![ch] + chars@.subrange(
                at as int,
                i + 1,
            ));
        }
        i = i + 1;
    }
    proof {
        assert(chars@.subrange(at as int, chars@.len() as int) =~= chars@.skip(at as int));
        assert(out@.len() == out.len());
    }
    finish(out, at + 1)
}

/// Copies characters but the one at place `gone`.
fn without(chars: &Vec<char>, gone: usize) -> (out: Vec<char>)
    requires
        gone < chars@.len(),
    ensures
        out@ == chars@.take(gone as int) + chars@.skip(gone + 1),
{
    let mut out: Vec<char> = Vec::new();
    let mut i: usize = 0;
    while i < chars.len()
        invariant
            i <= chars@.len(),
            gone < chars@.len(),
            out@ == if i <= gone {
                chars@.take(i as int)
            } else {
                chars@.take(gone as int) + chars@.subrange(gone + 1, i as int)
            },
        decreases chars@.len() - i,
    {
        if i != gone {
            out.push(chars[i]);
        }
        proof {
            if i < gone {
                assert(out@ =~= chars@.take(i + 1));
            } else if i == gone {
                assert(out@ =~= chars@.take(gone as int) + chars@.subrange(gone + 1, i + 1));
            } else {
                assert(out@ =~= chars@.take(gone as int) + chars@.subrange(gone + 1, i + 1));
            }
        }
        i = i + 1;
    }
    proof {
        assert(chars@.subrange(gone + 1, chars@.len() as int) =~= chars@.skip(gone + 1));
    }
    out
}

/// Takes the character before the cursor out of a text and moves the
/// cursor to its place. Nothing changes at the start of the text.
pub fn remove_before(text: &str, cursor: usize) -> (res: (String, usize))
    ensures
        res.0@ == erased_before(text@, cursor_char(text@, cursor as int)).text,
        res.1 == encode_utf8(
            res.0@.take(erased_before(text@, cursor_char(text@, cursor as int)).at),
        ).len(),
{
    let chars = chars_within(text);
    let at = char_at_cursor(chars.as_slice(), cursor);
    if at == 0 {
        finish(chars, 0)
    } else {
        let out = without(&chars, at - 1);
        finish(out, at - 1)
    }
}

/// Takes the character at the cursor out of a text. Nothing changes at the
/// end of the text.
pub fn remove_at(text: &str, cursor: usize) -> (res: (String, usize))
    ensures
        res.0@ == erased_at(text@, cursor_char(text@, cursor as int)).text,
        res.1 == encode_utf8(
            res.0@.take(erased_at(text@, cursor_char(text@, cursor as int)).at),
        ).len(),
{
    let chars = chars_within(text);
    let at = char_at_cursor(chars.as_slice(), cursor);
    if at >= chars.len() {
        finish(chars, at)
    } else {
        let out = without(&chars, at);
        finish(out, at)
    }
}

/// The character before the one that the cursor stands before; the first
/// character at the start of the text.
pub open spec fn left_of(at: int) -> int {
    if at > 0 {
        at - 1
    } else {
        0
    }
}

/// The character behind the one that the cursor stands before; the end of
/// the text at its end.
pub open spec fn right_of(text: Seq<char>, at: int) -> int {
    if at < text.len() {
        at + 1
    } else {
        text.len() as int
    }
}

/// The cursor one character further left.
pub fn step_left(text: &str, cursor: usize) -> (moved: usize)
    ensures
        moved == encode_utf8(text@.take(left_of(cursor_char(text@, cursor as int)))).len(),
{
    let chars = chars_within(text);
    let at = char_at_cursor(chars.as_slice(), cursor);
    let to = if at > 0 {
        at - 1
    } else {
        0
    };
    bytes_of_prefix(chars.as_slice(), to)
}

/// The cursor one character further right.
pub fn step_right(text: &str, cursor: usize) -> (moved: usize)
    ensures
        moved == encode_utf8(text@.take(right_of(text@, cursor_char(text@, cursor as int)))).len(),
{
    let chars = chars_within(text);
    let at = char_at_cursor(chars.as_slice(), cursor);
    let to = if at < chars.len() {
        at + 1
    } else {
        chars.len()
    };
    bytes_of_prefix(chars.as_slice(), to)
}

/// How many columns of a terminal a text takes.
pub uninterp spec fn display_width(text: Seq<char>) -> nat;

/// The width of a text on a terminal, as `unicode_width`'s
/// `UnicodeWidthStr::width` measures it: a number that depends on the
/// text's characters alone.
#[verifier::external_body]
pub(crate) fn width_of(text: &str) -> (width: usize)
    ensures
        width == display_width(text@),
{
    unicode_width::UnicodeWidthStr::width(text)
}

/// The column of the input line that the cursor stands in: the width of
/// the text before it.
pub fn cursor_column(text: &str, cursor: usize) -> (column: usize)
    ensures
        column == display_width(text@.take(cursor_char(text@, cursor as int))),
{
    let chars = chars_within(text);
    let at = char_at_cursor(chars.as_slice(), cursor);
    let before = string_of(vstd::slice::slice_subrange(chars.as_slice(), 0, at));
    proof {
        assert(chars@.subrange(0, at as int) =~= text@.take(at as int));
    }
    width_of(before.as_str())
}

} // verus!
