//! The last lines of a file, read straight from its bytes: what is shown
//! of a file's end while the file is still being scanned.

use super::parser::{level_of, LevelClassifier, LogLevel};
use crate::text::{
    decode_lossy, find_byte, find_in_range, lemma_after_ascii, lemma_find_byte, substring,
    utf8_lossy, CR, LF,
};
use vstd::prelude::*;
use vstd::slice::slice_subrange;
use vstd::string::*;
use vstd::utf8::*;

verus! {

/// Where the tail of `wanted` line feeds starts in `data[..upto]`: behind
/// the last line feed but `wanted - 1`, or at the start of the data where
/// there are fewer line feeds.
pub open spec fn tail_start(data: Seq<u8>, upto: int, wanted: int) -> int
    decreases upto,
{
    if upto <= 0 {
        0
    } else if data[upto - 1] == LF {
        if wanted <= 1 {
            upto
        } else {
            tail_start(data, upto - 1, wanted - 1)
        }
    } else {
        tail_start(data, upto - 1, wanted)
    }
}

/// Finds where the tail of `wanted` line feeds starts.
pub fn find_tail_start(data: &[u8], wanted: usize) -> (start: usize)
    ensures
        start == tail_start(data@, data@.len() as int, wanted as int),
        start <= data@.len(),
{
    let mut upto: usize = data.len();
    let mut left: usize = wanted;
    while upto > 0
        invariant
            upto <= data@.len(),
            tail_start(data@, data@.len() as int, wanted as int) == tail_start(
                data@,
                upto as int,
                left as int,
            ),
        decreases upto,
    {
        if data[upto - 1] == LF {
            if left <= 1 {
                return upto;
            }
            left = left - 1;
        }
        upto = upto - 1;
    }
    0
}

/// A line without the carriage return at its end.
pub open spec fn without_cr(line: Seq<u8>) -> Seq<u8> {
    if line.len() > 0 && line.last() == CR {
        line.drop_last()
    } else {
        line
    }
}

/// The lines of a text from byte `from` on: what stands between line
/// feeds, without the carriage return before a line feed. What follows the
/// last line feed is a line too, unless it is empty.
pub open spec fn lines_from(bytes: Seq<u8>, from: int) -> Seq<Seq<u8>>
    decreases bytes.len() - from,
{
    if from < 0 || from >= bytes.len() {
        Seq::empty()
    } else {
        let at = find_byte(bytes, LF, from);
        if from <= at < bytes.len() {
            seq![without_cr(bytes.subrange(from, at))] + lines_from(bytes, at + 1)
        } else {
            seq![bytes.subrange(from, bytes.len() as int)]
        }
    }
}

/// The encoded texts of string slices.
pub open spec fn bytes_of(parts: Seq<&str>) -> Seq<Seq<u8>> {
    Seq::new(parts.len(), |i: int| parts[i].spec_bytes())
}

/// Splits a text into its lines.
pub fn split_lines(text: &str) -> (lines: Vec<&str>)
    ensures
        bytes_of(lines@) == lines_from(text.spec_bytes(), 0),
{
    broadcast use encode_utf8_valid_utf8;

    let bytes = text.as_bytes();
    let len = bytes.len();
    let mut lines: Vec<&str> = Vec::new();
    let mut from: usize = 0;
    proof {
        is_char_boundary_start_end_of_seq(bytes@);
        assert(bytes_of(lines@) =~= Seq::<Seq<u8>>::empty());
    }
    while from < len
        invariant
            from <= len,
            len == bytes@.len(),
            bytes@ == text.spec_bytes(),
            valid_utf8(bytes@),
            is_char_boundary(bytes@, from as int),
            is_char_boundary(bytes@, len as int),
            lines_from(bytes@, 0) == bytes_of(lines@) + lines_from(bytes@, from as int),
        decreases len - from,
    {
        let at = find_in_range(bytes, LF, from, len);
        let ghost before = bytes_of(lines@);
        proof {
            assert(bytes@.subrange(0, len as int) =~= bytes@);
            lemma_find_byte(bytes@, LF, from as int);
        }
        if at >= len {
            let line = substring(text, from, len);
            lines.push(line);
            proof {
                assert(bytes_of(lines@) =~= before + seq![bytes@.subrange(from as int, len as int)]);
                assert(lines_from(bytes@, len as int) =~= Seq::<Seq<u8>>::empty());
            }
            from = len;
        } else {
            proof {
                is_char_boundary_iff_not_is_continuation_byte(bytes@, at as int);
            }
            let end = if at > from && bytes[at - 1] == CR {
                proof {
                    is_char_boundary_iff_not_is_continuation_byte(bytes@, at - 1);
                }
                at - 1
            } else {
                at
            };
            let line = substring(text, from, end);
            lines.push(line);
            proof {
                let whole = bytes@.subrange(from as int, at as int);
                assert(bytes@.subrange(from as int, end as int) =~= without_cr(whole));
                assert(bytes_of(lines@) =~= before + seq![without_cr(whole)]);
                if at + 1 < len {
                    is_char_boundary_iff_not_is_continuation_byte(bytes@, at as int);
                    lemma_after_ascii(bytes@, at as int);
                }
                assert(before + (seq![without_cr(whole)] + lines_from(bytes@, at + 1))
                    =~= bytes_of(lines@) + lines_from(bytes@, at + 1));
            }
            from = at + 1;
        }
    }
    proof {
        assert(lines_from(bytes@, len as int) =~= Seq::<Seq<u8>>::empty());
        assert(bytes_of(lines@) + Seq::<Seq<u8>>::empty() =~= bytes_of(lines@));
    }
    lines
}

/// The lines of a text, each with its level.
pub open spec fn leveled(lines: Seq<Seq<u8>>) -> Seq<(Seq<char>, LogLevel)> {
    Seq::new(lines.len(), |i: int| (decode_utf8(lines[i]), level_of(decode_utf8(lines[i]))))
}

/// What a list of lines with their levels holds.
pub open spec fn pairs_view(pairs: Seq<(String, LogLevel)>) -> Seq<(Seq<char>, LogLevel)> {
    Seq::new(pairs.len(), |i: int| (pairs[i].0@, pairs[i].1))
}

/// The lines of the text that bytes decode to, bytes that are no valid
/// UTF-8 replaced, each line with its level; only the last `count` lines
/// where there are more.
pub open spec fn last_lines(bytes: Seq<u8>, count: usize) -> Seq<(Seq<char>, LogLevel)> {
    let all = leveled(lines_from(encode_utf8(utf8_lossy(bytes)), 0));
    if all.len() > count {
        all.skip(all.len() - count)
    } else {
        all
    }
}

/// Reads the last `count` lines out of the bytes at the end of a file,
/// each with its level. Bytes that are not valid UTF-8 are replaced.
pub fn tail_of_buffer(bytes: &[u8], count: usize) -> (pairs: Vec<(String, LogLevel)>)
    ensures
        pairs_view(pairs@) == last_lines(bytes@, count),
        lines_from(encode_utf8(utf8_lossy(bytes@)), 0).len() <= usize::MAX,
{
    broadcast use encode_utf8_decode_utf8;

    let text = decode_lossy(bytes);
    let lines = split_lines(text.as_str());
    let classifier = LevelClassifier::new();
    let n = lines.len();
    let skip = if n > count {
        n - count
    } else {
        0
    };
    let ghost all = leveled(lines_from(encode_utf8(utf8_lossy(bytes@)), 0));
    let mut pairs: Vec<(String, LogLevel)> = Vec::new();
    let mut i: usize = skip;
    while i < n
        invariant
            skip <= i <= n,
            n == lines@.len(),
            all.len() == n,
            forall|k: int|
                0 <= k < n ==> #[trigger] all[k] == ((lines@[k])@, level_of((lines@[k])@)),
            pairs@.len() == i - skip,
            forall|k: int| 0 <= k < i - skip ==> (#[trigger] pairs@[k]).0@ == all[skip + k].0,
            forall|k: int| 0 <= k < i - skip ==> (#[trigger] pairs@[k]).1 == all[skip + k].1,
        decreases n - i,
    {
        let line = lines[i];
        let level = classifier.classify(line);
        pairs.push((line.to_owned(), level));
        i = i + 1;
    }
    proof {
        assert(pairs_view(pairs@) =~= last_lines(bytes@, count));
    }
    pairs
}

/// The last lines of `data`: what follows the last line feed but `count`,
/// as lines with their levels.
pub open spec fn tail_lines(data: Seq<u8>, count: usize) -> Seq<(Seq<char>, LogLevel)> {
    let wanted = if count < usize::MAX {
        count + 1
    } else {
        usize::MAX as int
    };
    let start = tail_start(data, data.len() as int, wanted);
    leveled(lines_from(encode_utf8(utf8_lossy(data.subrange(start, data.len() as int))), 0))
}

/// Reads the last `count` lines straight from the data of a file, each
/// with its level.
pub fn scan_tail_of(data: &[u8], count: usize) -> (pairs: Vec<(String, LogLevel)>)
    ensures
        pairs_view(pairs@) == tail_lines(data@, count),
{
    let wanted = if count < usize::MAX {
        count + 1
    } else {
        usize::MAX
    };
    let start = find_tail_start(data, wanted);
    let pairs = tail_of_buffer(slice_subrange(data, start, data.len()), usize::MAX);
    proof {
        assert(pairs_view(pairs@) =~= tail_lines(data@, count));
    }
    pairs
}

} // verus!
