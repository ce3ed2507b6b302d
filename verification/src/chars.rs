//! Texts taken character by character: matching the letters of a word in
//! order, finding where a character stands in a text's bytes, and taking
//! out of a line what a terminal cannot show.

use vstd::prelude::*;
use vstd::string::*;
use vstd::utf8::*;

verus! {

/// The characters of a text.
pub(crate) fn chars_of(text: &str) -> (chars: Vec<char>)
    ensures
        chars@ == text@,
{
    broadcast use axiom_spec_iter;

    let mut chars: Vec<char> = Vec::new();
    for c in it: text.chars()
        invariant
            chars@.len() == it.index(),
            forall|i: int| 0 <= i < chars@.len() ==> chars@[i] == it.seq()[i],
            it.seq() == text@,
    {
        chars.push(c);
    }
    assert(chars@ =~= text@);
    chars
}

/// The text that characters make up, collected into a `String`.
#[verifier::external_body]
pub(crate) fn string_of(chars: &[char]) -> (text: String)
    ensures
        text@ == chars@,
{
    chars.iter().collect()
}

/// How many characters of `needle` are found, in order, among the first
/// `n` characters of `haystack`, each at the first place where it can be.
pub open spec fn found_in_order(haystack: Seq<char>, needle: Seq<char>, n: int) -> int
    decreases n,
{
    if n <= 0 {
        0
    } else {
        let before = found_in_order(haystack, needle, n - 1);
        if before < needle.len() && needle[before] == haystack[n - 1] {
            before + 1
        } else {
            before
        }
    }
}

/// Whether the characters of `needle` stand in `haystack` in their order,
/// with whatever between them.
pub open spec fn is_fuzzy_match(haystack: Seq<char>, needle: Seq<char>) -> bool {
    found_in_order(haystack, needle, haystack.len() as int) == needle.len()
}

/// Whether the characters of `needle` stand in `haystack` in their order,
/// with whatever between them.
pub fn fuzzy_match(haystack: &str, needle: &str) -> (found: bool)
    ensures
        found == is_fuzzy_match(haystack@, needle@),
{
    let hay = chars_of(haystack);
    let wanted = chars_of(needle);
    let mut at: usize = 0;
    let mut i: usize = 0;
    while i < hay.len()
        invariant
            i <= hay@.len(),
            at <= wanted@.len(),
            at == found_in_order(hay@, wanted@, i as int),
        decreases hay@.len() - i,
    {
        if at < wanted.len() && wanted[at] == hay[i] {
            at = at + 1;
        }
        i = i + 1;
    }
    at == wanted.len()
}

/// How many bytes the UTF-8 encoding of a character has.
pub fn utf8_width(c: char) -> (width: usize)
    ensures
        width == encode_scalar(c as u32).len(),
        1 <= width <= 4,
{
    proof {
        char_is_scalar(c);
    }
    let code = c as u32;
    if code < 0x80 {
        1
    } else if code < 0x800 {
        2
    } else if code < 0x10000 {
        3
    } else {
        4
    }
}

/// The encoding of characters followed by one more is their encoding
/// followed by that of the one.
pub proof fn lemma_encode_push(chars: Seq<char>, c: char)
    ensures
        encode_utf8(chars.push(c)) == encode_utf8(chars) + encode_scalar(c as u32),
    decreases chars.len(),
{
    if chars.len() == 0 {
        reveal_with_fuel(encode_utf8, 2);
        assert(chars.push(c).drop_first() =~= Seq::<char>::empty());
        assert(chars.push(c)[0] == c);
        assert(encode_utf8(chars.push(c)) =~= encode_scalar(c as u32));
        assert(encode_utf8(chars) + encode_scalar(c as u32) =~= encode_scalar(c as u32));
    } else {
        assert(chars.push(c).drop_first() =~= chars.drop_first().push(c));
        lemma_encode_push(chars.drop_first(), c);
        assert(encode_utf8(chars.push(c)) =~= encode_utf8(chars) + encode_scalar(c as u32));
    }
}

/// How many bytes of a text stand before its character `char_idx`; all of
/// its bytes where it has no more than `char_idx` characters.
pub open spec fn bytes_before(text: Seq<char>, char_idx: int) -> int {
    if char_idx < text.len() {
        encode_utf8(text.take(char_idx)).len() as int
    } else {
        encode_utf8(text).len() as int
    }
}

/// The place in a text's bytes of its character `char_idx`; the length of
/// the text in bytes where it has no such character.
pub fn char_to_byte(s: &str, char_idx: usize) -> (at: usize)
    ensures
        at == bytes_before(s@, char_idx as int),
        at <= s.spec_bytes().len(),
{
    let chars = chars_of(s);
    let total = s.as_bytes().len();
    let n = if char_idx < chars.len() {
        char_idx
    } else {
        chars.len()
    };
    let mut at: usize = 0;
    let mut i: usize = 0;
    proof {
        assert(chars@.take(0) =~= Seq::<char>::empty());
        lemma_prefix_is_shorter(chars@, 0);
    }
    while i < n
        invariant
            i <= n <= chars@.len(),
            chars@ == s@,
            total == encode_utf8(chars@).len(),
            at == encode_utf8(chars@.take(i as int)).len(),
            at <= total,
        decreases n - i,
    {
        proof {
            assert(chars@.take(i + 1) =~= chars@.take(i as int).push(chars@[i as int]));
            lemma_encode_push(chars@.take(i as int), chars@[i as int]);
            lemma_prefix_is_shorter(chars@, i + 1);
        }
        at = at + utf8_width(chars[i]);
        i = i + 1;
    }
    proof {
        if char_idx >= chars@.len() {
            assert(chars@.take(n as int) =~= chars@);
        }
    }
    at
}

/// The first characters of a text have no more bytes than the text.
pub proof fn lemma_prefix_is_shorter(chars: Seq<char>, count: int)
    requires
        0 <= count <= chars.len(),
    ensures
        encode_utf8(chars.take(count)).len() <= encode_utf8(chars).len(),
    decreases chars.len() - count,
{
    if count == chars.len() {
        assert(chars.take(count) =~= chars);
    } else {
        lemma_prefix_is_shorter(chars, count + 1);
        assert(chars.take(count + 1) =~= chars.take(count).push(chars[count]));
        lemma_encode_push(chars.take(count), chars[count]);
    }
}

/// The escape character, which begins a control sequence.
pub const ESCAPE: char = '\x1b';

/// The tabulator.
pub const TAB: char = '\t';

/// The bracket that follows the escape character in a control sequence.
pub const BRACKET: char = '[';

/// Whether a character is a control character.
pub open spec fn is_control(c: char) -> bool {
    c as u32 <= 0x1f || 0x7f <= c as u32 <= 0x9f
}

/// Whether a character is a letter of the ASCII alphabet, which ends a
/// control sequence.
pub open spec fn is_ascii_letter(c: char) -> bool {
    65 <= c as u32 <= 90 || 97 <= c as u32 <= 122
}

/// Whether a character is one of the control characters of ASCII.
pub open spec fn is_ascii_control(c: char) -> bool {
    c as u32 <= 0x1f || c as u32 == 0x7f
}

/// Whether a text holds a control character of ASCII.
pub open spec fn needs_sanitizing(text: Seq<char>) -> bool {
    exists|i: int| 0 <= i < text.len() && is_ascii_control(#[trigger] text[i])
}

/// Where a control sequence ends that began before character `i`: behind
/// the first letter from `i` on, or at the end of the text.
pub open spec fn sequence_end(text: Seq<char>, i: int) -> int
    decreases text.len() - i,
{
    if i < 0 || i >= text.len() {
        text.len() as int
    } else if is_ascii_letter(text[i]) {
        i + 1
    } else {
        sequence_end(text, i + 1)
    }
}

/// What is left of a text from character `i` on when control sequences
/// and control characters are taken out and each tabulator is made four
/// blanks.
pub open spec fn sanitized_from(text: Seq<char>, i: int) -> Seq<char>
    decreases text.len() - i,
{
    if i < 0 || i >= text.len() {
        Seq::empty()
    } else if text[i] == ESCAPE {
        if i + 1 < text.len() && text[i + 1] == BRACKET {
            let end = sequence_end(text, i + 1);
            if i < end <= text.len() {
                sanitized_from(text, end)
            } else {
                Seq::empty()
            }
        } else {
            sanitized_from(text, i + 1)
        }
    } else if text[i] == TAB {
        seq![' ', ' ', ' ', ' '] + sanitized_from(text, i + 1)
    } else if is_control(text[i]) {
        sanitized_from(text, i + 1)
    } else {
        seq![text[i]] + sanitized_from(text, i + 1)
    }
}

/// A control sequence ends behind where it began.
pub proof fn lemma_sequence_end(text: Seq<char>, i: int)
    requires
        0 <= i <= text.len(),
    ensures
        i <= sequence_end(text, i) <= text.len(),
        i < text.len() ==> i < sequence_end(text, i),
    decreases text.len() - i,
{
    if i < text.len() && !is_ascii_letter(text[i]) {
        lemma_sequence_end(text, i + 1);
    }
}

/// Takes out of a line what a terminal cannot show as text: control
/// sequences, from the escape character and a bracket to the next letter,
/// and control characters; each tabulator is made four blanks. `None`
/// where the line holds no control character of ASCII and is left as it
/// is.
pub fn sanitize_line(text: &str) -> (res: Option<String>)
    ensures
        match res {
            Some(clean) => needs_sanitizing(text@) && clean@ == sanitized_from(text@, 0),
            None => !needs_sanitizing(text@),
        },
{
    let chars = chars_of(text);
    let n = chars.len();
    let mut k: usize = 0;
    let mut dirty = false;
    while k < n
        invariant
            k <= n,
            n == chars@.len(),
            dirty ==> needs_sanitizing(chars@),
            !dirty ==> forall|j: int| 0 <= j < k ==> !is_ascii_control(#[trigger] chars@[j]),
        decreases n - k,
    {
        let code = chars[k] as u32;
        if code <= 0x1f || code == 0x7f {
            dirty = true;
        }
        k = k + 1;
    }
    if !dirty {
        return None;
    }
    let mut out: Vec<char> = Vec::new();
    let mut i: usize = 0;
    proof {
        assert(out@ + sanitized_from(chars@, 0) =~= sanitized_from(chars@, 0));
    }
    while i < n
        invariant
            i <= n,
            n == chars@.len(),
            sanitized_from(chars@, 0) == out@ + sanitized_from(chars@, i as int),
        decreases n - i,
    {
        let c = chars[i];
        let code = c as u32;
        let ghost rest = sanitized_from(chars@, i as int);
        let ghost so_far = out@;
        if c == ESCAPE {
            if i + 1 < n && chars[i + 1] == BRACKET {
                let mut j: usize = i + 1;
                proof {
                    lemma_sequence_end(chars@, i + 1);
                }
                let mut ended = false;
                while j < n && !ended
                    invariant
                        i < j <= n,
                        n == chars@.len(),
                        !ended ==> sequence_end(chars@, i + 1) == sequence_end(chars@, j as int),
                        ended ==> sequence_end(chars@, i + 1) == j,
                    decreases n - j + if ended { 0int } else { 1int },
                {
                    let here = chars[j] as u32;
                    if (65 <= here && here <= 90) || (97 <= here && here <= 122) {
                        ended = true;
                    }
                    j = j + 1;
                }
                i = j;
            } else {
                i = i + 1;
            }
        } else if c == TAB {
            out.push(' ');
            out.push(' ');
            out.push(' ');
            out.push(' ');
            proof {
                assert(out@ =~= so_far + seq![' ', ' ', ' ', ' ']);
                assert(so_far + (seq![' ', ' ', ' ', ' '] + sanitized_from(chars@, i + 1)) =~= out@
                    + sanitized_from(chars@, i + 1));
            }
            i = i + 1;
        } else if code <= 0x1f || (0x7f <= code && code <= 0x9f) {
            i = i + 1;
        } else {
            out.push(c);
            proof {
                assert(so_far + (seq![c] + sanitized_from(chars@, i + 1)) =~= out@
                    + sanitized_from(chars@, i + 1));
            }
            i = i + 1;
        }
    }
    proof {
        assert(out@ + sanitized_from(chars@, n as int) =~= out@);
    }
    Some(string_of(out.as_slice()))
}

} // verus!
