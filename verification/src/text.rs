//! Bytes and text: finding line breaks, decoding UTF-8, and cutting one
//! line out of the raw data of a log file.

use vstd::prelude::*;
use vstd::string::*;
use vstd::utf8::*;

verus! {

/// The most bytes of a line that are ever handed out as its text.
pub const MAX_LINE_BYTES: usize = 2000;

/// The most bytes of a line that are read to find its timestamp and level.
pub const PROBE_BYTES: usize = 200;

/// The line feed byte.
pub const LF: u8 = 10;

/// The carriage return byte.
pub const CR: u8 = 13;

/// The position of the first `needle` in `bytes` at or after `from`, or the
/// length of `bytes` where there is none.
pub open spec fn find_byte(bytes: Seq<u8>, needle: u8, from: int) -> int
    decreases bytes.len() - from,
{
    if from >= bytes.len() {
        bytes.len() as int
    } else if from >= 0 && bytes[from] == needle {
        from
    } else {
        find_byte(bytes, needle, from + 1)
    }
}

/// `find_byte` returns the first position that holds the needle.
pub proof fn lemma_find_byte(bytes: Seq<u8>, needle: u8, from: int)
    requires
        0 <= from <= bytes.len(),
    ensures
        from <= find_byte(bytes, needle, from) <= bytes.len(),
        find_byte(bytes, needle, from) < bytes.len() ==> bytes[find_byte(bytes, needle, from)]
            == needle,
        forall|k: int| from <= k < find_byte(bytes, needle, from) ==> bytes[k] != needle,
    decreases bytes.len() - from,
{
    if from < bytes.len() && bytes[from] != needle {
        lemma_find_byte(bytes, needle, from + 1);
    }
}

/// A position that holds the needle, with none before it, is what
/// `find_byte` returns.
pub proof fn lemma_find_byte_is(bytes: Seq<u8>, needle: u8, from: int, at: int)
    requires
        0 <= from <= at <= bytes.len(),
        at < bytes.len() ==> bytes[at] == needle,
        forall|k: int| from <= k < at ==> bytes[k] != needle,
    ensures
        find_byte(bytes, needle, from) == at,
    decreases at - from,
{
    if from < at {
        lemma_find_byte_is(bytes, needle, from + 1, at);
    }
}

/// `memchr::memchr` returns the index of the first byte of the haystack that
/// equals the needle, and `None` where no byte does.
pub assume_specification[ memchr::memchr ](needle: u8, haystack: &[u8]) -> (found: Option<usize>)
    ensures
        match found {
            Some(i) => i < haystack@.len() && haystack@[i as int] == needle && forall|k: int|
                0 <= k < i ==> haystack@[k] != needle,
            None => forall|k: int| 0 <= k < haystack@.len() ==> haystack@[k] != needle,
        },
;

/// Finds the first `needle` in `data[from..to]`; returns `to` where there is
/// none.
pub fn find_in_range(data: &[u8], needle: u8, from: usize, to: usize) -> (at: usize)
    requires
        from <= to <= data@.len(),
    ensures
        at == find_byte(data@.subrange(0, to as int), needle, from as int),
        from <= at <= to,
{
    let window = &data[from..to];
    let ghost upto = data@.subrange(0, to as int);
    match memchr::memchr(needle, window) {
        Some(i) => {
            proof {
                assert forall|k: int| from <= k < from + i implies upto[k] != needle by {
                    assert(window@[k - from] == upto[k]);
                }
                assert(window@[i as int] == upto[from + i]);
                lemma_find_byte_is(upto, needle, from as int, from + i);
            }
            from + i
        },
        None => {
            proof {
                assert forall|k: int| from <= k < to implies upto[k] != needle by {
                    assert(window@[k - from] == upto[k]);
                }
                lemma_find_byte_is(upto, needle, from as int, to as int);
            }
            to
        },
    }
}

/// Decodes bytes with `core::str::from_utf8`: the text is there exactly when
/// the bytes are valid UTF-8, and it then encodes to the same bytes.
#[verifier::external_body]
pub(crate) fn decode_text(bytes: &[u8]) -> (res: Option<&str>)
    ensures
        res is Some <==> valid_utf8(bytes@),
        res matches Some(t) ==> t.spec_bytes() == bytes@,
{
    core::str::from_utf8(bytes).ok()
}

/// What `String::from_utf8_lossy` makes of bytes: their text, with the
/// replacement character in place of whatever is not valid UTF-8.
pub uninterp spec fn utf8_lossy(bytes: Seq<u8>) -> Seq<char>;

/// Decodes bytes with `String::from_utf8_lossy`. Valid UTF-8 is decoded as
/// it is.
#[verifier::external_body]
pub(crate) fn decode_lossy(bytes: &[u8]) -> (text: String)
    ensures
        text@ == utf8_lossy(bytes@),
        valid_utf8(bytes@) ==> text@ == decode_utf8(bytes@),
{
    String::from_utf8_lossy(bytes).into_owned()
}

/// Bytes without the line feeds and carriage returns at their end.
pub open spec fn strip_line_end(bytes: Seq<u8>) -> Seq<u8>
    decreases bytes.len(),
{
    if bytes.len() > 0 && (bytes.last() == LF || bytes.last() == CR) {
        strip_line_end(bytes.drop_last())
    } else {
        bytes
    }
}

/// The first `cap` bytes, or all of them where there are fewer.
pub open spec fn capped(bytes: Seq<u8>, cap: int) -> Seq<u8> {
    if bytes.len() > cap {
        bytes.take(cap)
    } else {
        bytes
    }
}

/// A character boundary of a text, seen from an earlier character
/// boundary, is a character boundary of what follows that one.
pub proof fn lemma_boundary_in_suffix(bytes: Seq<u8>, a: int, b: int)
    requires
        valid_utf8(bytes),
        0 <= a <= b <= bytes.len(),
        is_char_boundary(bytes, a),
        is_char_boundary(bytes, b),
    ensures
        valid_utf8(bytes.subrange(a, bytes.len() as int)),
        is_char_boundary(bytes.subrange(a, bytes.len() as int), b - a),
{
    let tail = bytes.subrange(a, bytes.len() as int);
    valid_utf8_split(bytes, a);
    if b < bytes.len() {
        is_char_boundary_iff_not_is_continuation_byte(bytes, b);
        is_char_boundary_iff_not_is_continuation_byte(tail, b - a);
    } else {
        is_char_boundary_start_end_of_seq(tail);
    }
}

/// In valid UTF-8 an ASCII byte is a character of its own: a character
/// starts behind it.
pub proof fn lemma_after_ascii(bytes: Seq<u8>, at: int)
    requires
        valid_utf8(bytes),
        0 <= at < bytes.len(),
        bytes[at] < 128,
        is_char_boundary(bytes, at),
    ensures
        is_char_boundary(bytes, at + 1),
{
    let tail = bytes.subrange(at, bytes.len() as int);
    valid_utf8_split(bytes, at);
    assert(tail[0] == bytes[at]);
    assert(is_char_boundary(tail, 1)) by {
        reveal_with_fuel(is_char_boundary, 2);
        is_char_boundary_start_end_of_seq(pop_first_scalar(tail));
    }
    if at + 1 < bytes.len() {
        is_char_boundary_iff_not_is_continuation_byte(tail, 1);
        assert(tail[1] == bytes[at + 1]);
        is_char_boundary_iff_not_is_continuation_byte(bytes, at + 1);
    } else {
        is_char_boundary_start_end_of_seq(bytes);
    }
}

/// The part of a text between two of its character boundaries.
pub fn substring<'a>(text: &'a str, start: usize, end: usize) -> (res: &'a str)
    requires
        start <= end <= text.spec_bytes().len(),
        is_char_boundary(text.spec_bytes(), start as int),
        is_char_boundary(text.spec_bytes(), end as int),
    ensures
        res.spec_bytes() == text.spec_bytes().subrange(start as int, end as int),
        res@ == decode_utf8(text.spec_bytes().subrange(start as int, end as int)),
{
    broadcast use encode_utf8_valid_utf8, encode_utf8_decode_utf8;

    let ghost bytes = text.spec_bytes();
    proof {
        lemma_boundary_in_suffix(bytes, start as int, end as int);
    }
    let (_, tail) = text.split_at(start);
    let (res, _) = tail.split_at(end - start);
    proof {
        assert(res.spec_bytes() =~= bytes.subrange(start as int, end as int));
    }
    res
}

/// Where line `i` lies in the data: from its offset up to the byte before
/// the next line's offset, or up to the end of the data for the last line.
/// `None` where there is no such line, or it starts at or after the end of
/// the data, or the next offset lies before it.
pub open spec fn line_bounds(offsets: Seq<u64>, data_len: int, i: int) -> Option<(int, int)> {
    if 0 <= i < offsets.len() && offsets[i] < data_len {
        let next = if i + 1 < offsets.len() {
            if offsets[i + 1] > 0 {
                offsets[i + 1] - 1
            } else {
                0
            }
        } else {
            data_len
        };
        let stop = if next < data_len {
            next
        } else {
            data_len
        };
        if offsets[i] <= stop {
            Some((offsets[i] as int, stop))
        } else {
            None
        }
    } else {
        None
    }
}

/// The bytes of line `i` that its text is made from: the line's range, cut
/// to `MAX_LINE_BYTES`.
pub open spec fn line_bytes(data: Seq<u8>, offsets: Seq<u64>, data_len: int, i: int) -> Option<
    Seq<u8>,
> {
    match line_bounds(offsets, data_len, i) {
        Some((start, stop)) => Some(capped(data.subrange(start, stop), MAX_LINE_BYTES as int)),
        None => None,
    }
}

/// What bytes are decoded to leniently: their text, where they are valid
/// UTF-8; else what lossy decoding makes of them, with the replacement
/// character in place of whatever is not valid UTF-8.
pub open spec fn lenient_text(bytes: Seq<u8>) -> Seq<char> {
    if valid_utf8(bytes) {
        decode_utf8(bytes)
    } else {
        utf8_lossy(bytes)
    }
}

/// The text of line `i`: its bytes without the line feeds and carriage
/// returns at their end, decoded leniently. There is a text for every
/// line that lies in the data.
pub open spec fn line_text(data: Seq<u8>, offsets: Seq<u64>, data_len: int, i: int) -> Option<
    Seq<char>,
> {
    match line_bytes(data, offsets, data_len, i) {
        Some(bytes) => Some(lenient_text(strip_line_end(bytes))),
        None => None,
    }
}

/// Removes every trailing line feed and carriage return from bytes.
pub fn strip_end(bytes: &[u8]) -> (res: &[u8])
    ensures
        res@ == strip_line_end(bytes@),
{
    let mut keep: usize = bytes.len();
    proof {
        assert(bytes@.take(keep as int) =~= bytes@);
    }
    while keep > 0 && (bytes[keep - 1] == LF || bytes[keep - 1] == CR)
        invariant
            keep <= bytes@.len(),
            strip_line_end(bytes@) == strip_line_end(bytes@.take(keep as int)),
        decreases keep,
    {
        proof {
            assert(bytes@.take(keep as int).drop_last() =~= bytes@.take(keep - 1));
        }
        keep = keep - 1;
    }
    proof {
        assert(bytes@.take(keep as int) =~= bytes@.subrange(0, keep as int));
    }
    vstd::slice::slice_subrange(bytes, 0, keep)
}

/// The length that a line reader works with: `data_len`, but never more
/// than there is data.
pub open spec fn usable_len(data: Seq<u8>, data_len: usize) -> int {
    if data_len <= data.len() {
        data_len as int
    } else {
        data.len() as int
    }
}

/// The text of line `i` of `data`, whose lines start at `offsets`; only the
/// first `data_len` bytes of `data` are read. The line is decoded
/// leniently: bytes that are not valid UTF-8 never make it fail.
pub fn get_line_from_data(data: &[u8], offsets: &[u64], data_len: usize, i: usize) -> (res: Option<
    String,
>)
    ensures
        match res {
            Some(t) => line_text(data@, offsets@, usable_len(data@, data_len), i as int) == Some(
                t@,
            ),
            None => line_text(data@, offsets@, usable_len(data@, data_len), i as int) is None,
        },
{
    let len = if data_len <= data.len() {
        data_len
    } else {
        data.len()
    };
    if i >= offsets.len() {
        return None;
    }
    if offsets[i] >= len as u64 {
        return None;
    }
    let start = offsets[i] as usize;
    let mut stop = len;
    if i + 1 < offsets.len() {
        let next = offsets[i + 1];
        let before = if next > 0 {
            next - 1
        } else {
            0
        };
        if before < len as u64 {
            stop = before as usize;
        }
    }
    if start > stop {
        return None;
    }
    let end = if stop - start > MAX_LINE_BYTES {
        start + MAX_LINE_BYTES
    } else {
        stop
    };
    let slice = &data[start..end];
    proof {
        assert(slice@ =~= capped(data@.subrange(start as int, stop as int), MAX_LINE_BYTES as int));
    }
    Some(decode_lossy(strip_end(slice)))
}

/// The bytes read to find the timestamp and level of the line that starts
/// at `start`: up to `PROBE_BYTES` bytes, ending before the line's line
/// feed. Empty where `start` is not inside the data.
pub open spec fn probe_bytes(data: Seq<u8>, start: int) -> Seq<u8> {
    if 0 <= start < data.len() {
        let limit = if start + PROBE_BYTES < data.len() {
            start + PROBE_BYTES
        } else {
            data.len() as int
        };
        data.subrange(start, find_byte(data.subrange(0, limit), LF, start))
    } else {
        Seq::empty()
    }
}

/// The text read to find the timestamp and level of the line that starts at
/// `start`: its probe bytes decoded, or the empty text where they are not
/// valid UTF-8.
pub open spec fn probe_text(data: Seq<u8>, start: int) -> Seq<char> {
    if valid_utf8(probe_bytes(data, start)) {
        decode_utf8(probe_bytes(data, start))
    } else {
        Seq::empty()
    }
}

/// Cuts out the text that the timestamp and level of the line starting at
/// `start` are read from.
pub fn line_probe<'a>(data: &'a [u8], start: u64) -> (res: &'a str)
    ensures
        res@ == probe_text(data@, start as int),
{
    broadcast use encode_utf8_decode_utf8;

    proof {
        reveal_strlit("");
    }
    if start >= data.len() as u64 {
        assert(probe_bytes(data@, start as int) =~= Seq::<u8>::empty());
        assert(decode_utf8(Seq::<u8>::empty()) =~= Seq::<char>::empty());
        return "";
    }
    let from = start as usize;
    let limit = if data.len() - from > PROBE_BYTES {
        from + PROBE_BYTES
    } else {
        data.len()
    };
    let stop = find_in_range(data, LF, from, limit);
    let slice = &data[from..stop];
    match decode_text(slice) {
        Some(t) => t,
        None => "",
    }
}

/// What `str::split_whitespace` splits a text into: its parts between
/// runs of whitespace, none of them empty.
pub uninterp spec fn whitespace_words(text: Seq<char>) -> Seq<Seq<char>>;

/// The texts of string slices.
pub open spec fn views_of(parts: Seq<&str>) -> Seq<Seq<char>> {
    Seq::new(parts.len(), |i: int| parts[i]@)
}

/// Splits a text at whitespace with `str::split_whitespace`. The parts
/// depend on the text alone, and none of them is empty.
#[verifier::external_body]
pub(crate) fn split_words(text: &str) -> (words: Vec<&str>)
    ensures
        views_of(words@) == whitespace_words(text@),
        forall|i: int| 0 <= i < words@.len() ==> (#[trigger] words@[i])@.len() > 0,
{
    text.split_whitespace().collect()
}

/// What `str::trim` leaves of a text: the text without the whitespace at
/// its start and at its end.
pub uninterp spec fn trimmed(text: Seq<char>) -> Seq<char>;

/// Takes the whitespace off the start and the end of a text with
/// `str::trim`.
#[verifier::external_body]
pub(crate) fn trim_text(text: &str) -> (res: &str)
    ensures
        res@ == trimmed(text@),
{
    text.trim()
}

/// What follows the first byte of a text that starts with an ASCII
/// character.
pub fn after_first_byte(text: &str) -> (res: &str)
    requires
        text.spec_bytes().len() > 0,
        text.spec_bytes()[0] < 128,
    ensures
        res.spec_bytes() == text.spec_bytes().skip(1),
        res@ == decode_utf8(text.spec_bytes().skip(1)),
{
    broadcast use encode_utf8_valid_utf8;

    let bytes = text.as_bytes();
    proof {
        is_char_boundary_start_end_of_seq(bytes@);
        lemma_after_ascii(bytes@, 0);
        assert(bytes@.subrange(1, bytes@.len() as int) =~= bytes@.skip(1));
    }
    substring(text, 1, bytes.len())
}

/// What `str::to_lowercase` makes of a text: the text in lower case.
pub uninterp spec fn lowercased(text: Seq<char>) -> Seq<char>;

/// Puts a text into lower case with `str::to_lowercase`.
#[verifier::external_body]
pub(crate) fn lowercase_text(text: &str) -> (res: String)
    ensures
        res@ == lowercased(text@),
{
    text.to_lowercase()
}

} // verus!
