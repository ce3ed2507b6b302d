//! What holds of the index whatever the file: laws that follow from the
//! contracts of the indexing functions.

use super::index::{
    carried_on, chunk_reach, is_chunk_offsets, is_line_start, read_flags, read_levels,
    read_stamp_at, read_stamps, stamp_before, IndexChunkView, LogIndexView,
};
use super::parser::TimestampFormat;
use crate::text::{
    capped, lemma_after_ascii, lemma_boundary_in_suffix, lenient_text, line_bounds, line_bytes,
    line_text, strip_line_end, CR, LF, MAX_LINE_BYTES,
};
use vstd::prelude::*;
use vstd::utf8::*;

verus! {

/// What lies between line `i` and the line after it: a line feed; nothing
/// after the last line.
pub open spec fn separator_after(offsets: Seq<u64>, i: int) -> Seq<u8> {
    if i + 1 < offsets.len() {
        seq![LF]
    } else {
        Seq::empty()
    }
}

/// The bytes of line `i` as they stand in the data, neither cut nor
/// stripped; none where the line has no place in the data.
pub open spec fn whole_line(data: Seq<u8>, offsets: Seq<u64>, i: int) -> Seq<u8> {
    match line_bounds(offsets, data.len() as int, i) {
        Some((start, stop)) => data.subrange(start, stop),
        None => Seq::empty(),
    }
}

/// The first `n` lines, each followed by its separator, one after another.
pub open spec fn rejoined(data: Seq<u8>, offsets: Seq<u64>, n: int) -> Seq<u8>
    decreases n,
{
    if n <= 0 {
        Seq::empty()
    } else {
        rejoined(data, offsets, n - 1) + whole_line(data, offsets, n - 1) + separator_after(
            offsets,
            n - 1,
        )
    }
}

/// How far into the data the first `n` lines with their separators reach.
pub open spec fn reach_of(data: Seq<u8>, offsets: Seq<u64>, n: int) -> int {
    if n <= 0 {
        0
    } else if n < offsets.len() {
        offsets[n] as int
    } else {
        data.len() as int
    }
}

/// An index of a whole file starts with a line at the start of the file.
pub proof fn lemma_first_line_at_start(data: Seq<u8>, offsets: Seq<u64>)
    requires
        is_chunk_offsets(data, 0, usize::MAX, offsets),
    ensures
        offsets.len() > 0,
        offsets[0] == 0,
{
    assert(is_line_start(data, 0, 0));
    let i = choose|i: int| 0 <= i < offsets.len() && offsets[i] == 0;
    if i > 0 {
        assert(offsets[0] < offsets[i]);
    }
}

/// The lines of a whole file's index, with the line feeds put back between
/// them, are the file as far as they reach.
proof fn lemma_rejoined_prefix(data: Seq<u8>, offsets: Seq<u64>, n: int)
    requires
        is_chunk_offsets(data, 0, usize::MAX, offsets),
        0 <= n <= offsets.len(),
    ensures
        0 <= reach_of(data, offsets, n) <= data.len(),
        rejoined(data, offsets, n) == data.subrange(0, reach_of(data, offsets, n)),
    decreases n,
{
    lemma_first_line_at_start(data, offsets);
    if n == 0 {
        assert(rejoined(data, offsets, 0) =~= data.subrange(0, 0));
    } else {
        lemma_rejoined_prefix(data, offsets, n - 1);
        let i = n - 1;
        let from = reach_of(data, offsets, i);
        assert(is_line_start(data, 0, offsets[i] as int));
        assert(from == offsets[i]);
        if n < offsets.len() {
            assert(is_line_start(data, 0, offsets[n] as int));
            assert(offsets[i] < offsets[n]);
            let stop = offsets[n] - 1;
            assert(whole_line(data, offsets, i) == data.subrange(from, stop));
            assert(data[stop] == LF);
            assert(rejoined(data, offsets, n) =~= data.subrange(0, offsets[n] as int));
        } else {
            if offsets[i] < data.len() {
                assert(whole_line(data, offsets, i) == data.subrange(from, data.len() as int));
            } else {
                assert(data.len() == 0);
            }
            assert(rejoined(data, offsets, n) =~= data.subrange(0, data.len() as int));
        }
    }
}

/// Round trip: the lines of a whole file's index, as they stand in the
/// data, with a line feed put back between each line and the next, make up
/// the file again. A line's text is these bytes cut to the length cap,
/// without the line ends at their end, and decoded.
pub proof fn lemma_lines_rejoin_to_data(data: Seq<u8>, offsets: Seq<u64>)
    requires
        is_chunk_offsets(data, 0, usize::MAX, offsets),
    ensures
        rejoined(data, offsets, offsets.len() as int) == data,
{
    lemma_first_line_at_start(data, offsets);
    lemma_rejoined_prefix(data, offsets, offsets.len() as int);
    assert(data.subrange(0, data.len() as int) =~= data);
}

/// The bytes that the text of line `i` encodes to; none where the line has
/// no text.
pub open spec fn text_bytes(data: Seq<u8>, offsets: Seq<u64>, i: int) -> Seq<u8> {
    match line_text(data, offsets, data.len() as int, i) {
        Some(text) => encode_utf8(text),
        None => Seq::empty(),
    }
}

/// The texts of the first `n` lines, encoded, each followed by its
/// separator, one after another.
pub open spec fn rejoined_texts(data: Seq<u8>, offsets: Seq<u64>, n: int) -> Seq<u8>
    decreases n,
{
    if n <= 0 {
        Seq::empty()
    } else {
        rejoined_texts(data, offsets, n - 1) + text_bytes(data, offsets, n - 1) + separator_after(
            offsets,
            n - 1,
        )
    }
}

/// Bytes without the line feed at their end, where there is one.
pub open spec fn without_last_feed(bytes: Seq<u8>) -> Seq<u8> {
    if bytes.len() > 0 && bytes.last() == LF {
        bytes.drop_last()
    } else {
        bytes
    }
}

/// Whether a file is plain text whose lines are read whole: valid UTF-8
/// without a carriage return, and no line longer than the length cap. It
/// has fewer lines than the machine can count.
pub open spec fn is_plain(data: Seq<u8>, offsets: Seq<u64>) -> bool {
    &&& offsets.len() < usize::MAX
    &&& valid_utf8(data)
    &&& forall|k: int| 0 <= k < data.len() ==> #[trigger] data[k] != CR
    &&& forall|i: int|
        0 <= i < offsets.len() ==> (#[trigger] whole_line(data, offsets, i)).len()
            <= MAX_LINE_BYTES
}

/// In valid UTF-8 the bytes between two character boundaries are valid
/// UTF-8.
proof fn lemma_valid_between(data: Seq<u8>, a: int, b: int)
    requires
        valid_utf8(data),
        0 <= a <= b <= data.len(),
        is_char_boundary(data, a),
        is_char_boundary(data, b),
    ensures
        valid_utf8(data.subrange(a, b)),
{
    lemma_boundary_in_suffix(data, a, b);
    let tail = data.subrange(a, data.len() as int);
    valid_utf8_split(tail, b - a);
    assert(tail.subrange(0, b - a) =~= data.subrange(a, b));
}

/// In valid UTF-8 a character starts at the start, at the end, at every
/// line feed and behind every line feed.
proof fn lemma_line_ends_are_boundaries(data: Seq<u8>, p: int)
    requires
        valid_utf8(data),
        0 <= p <= data.len(),
        p == 0 || p == data.len() || data[p] == LF || data[p - 1] == LF,
    ensures
        is_char_boundary(data, p),
{
    is_char_boundary_start_end_of_seq(data);
    if 0 < p < data.len() {
        if data[p] == LF {
            is_char_boundary_iff_not_is_continuation_byte(data, p);
        } else {
            is_char_boundary_iff_not_is_continuation_byte(data, p - 1);
            lemma_after_ascii(data, p - 1);
        }
    }
}

/// Bytes that do not end in a line feed or a carriage return are not
/// stripped.
proof fn lemma_nothing_to_strip(bytes: Seq<u8>)
    requires
        bytes.len() == 0 || (bytes.last() != LF && bytes.last() != CR),
    ensures
        strip_line_end(bytes) == bytes,
{
}

/// The text of a line of a plain file encodes to the line's bytes as they
/// stand in the data, without the line feed that ends the file's last
/// line.
proof fn lemma_text_of_plain_line(data: Seq<u8>, offsets: Seq<u64>, i: int)
    requires
        is_chunk_offsets(data, 0, usize::MAX, offsets),
        is_plain(data, offsets),
        0 <= i < offsets.len(),
    ensures
        text_bytes(data, offsets, i) == if i + 1 < offsets.len() {
            whole_line(data, offsets, i)
        } else {
            without_last_feed(whole_line(data, offsets, i))
        },
{
    let len = data.len() as int;
    let whole = whole_line(data, offsets, i);
    assert(is_line_start(data, 0, offsets[i] as int));
    match line_bounds(offsets, len, i) {
        None => {
            assert(line_bytes(data, offsets, len, i) is None);
        },
        Some((start, stop)) => {
            assert(whole == data.subrange(start, stop));
            assert(capped(whole, MAX_LINE_BYTES as int) == whole);
            assert(line_bytes(data, offsets, len, i) == Some(whole));
            // No line feed stands inside the line: a line would start
            // behind it.
            assert forall|q: int| start <= q < stop && q + 1 < len implies data[q] != LF by {
                if data[q] == LF {
                    let p = q + 1;
                    assert(is_line_start(data, 0, p));
                    assert(p <= chunk_reach(data, usize::MAX, offsets));
                    let j = choose|j: int| 0 <= j < offsets.len() && offsets[j] == p;
                    if j <= i {
                        if j < i {
                            assert(offsets[j] < offsets[i]);
                        }
                    } else {
                        if i + 1 < j {
                            assert(offsets[i + 1] < offsets[j]);
                        }
                        assert(offsets[i + 1] <= p);
                    }
                }
            }
            let kept = if whole.len() > 0 && whole.last() == LF {
                whole.drop_last()
            } else {
                whole
            };
            if whole.len() > 0 {
                assert(whole.last() == data[stop - 1]);
                assert(whole.last() != CR);
                if whole.last() == LF {
                    assert(stop == len);
                    assert(i + 1 >= offsets.len()) by {
                        if i + 1 < offsets.len() {
                            assert(is_line_start(data, 0, offsets[i + 1] as int));
                        }
                    }
                    if kept.len() > 0 {
                        assert(kept.last() == data[stop - 2]);
                    }
                    lemma_nothing_to_strip(kept);
                    assert(strip_line_end(whole) == strip_line_end(whole.drop_last()));
                } else {
                    lemma_nothing_to_strip(whole);
                }
            } else {
                lemma_nothing_to_strip(whole);
            }
            assert(strip_line_end(whole) == kept);
            let end = start + kept.len();
            assert(kept =~= data.subrange(start, end));
            if i + 1 < offsets.len() {
                assert(is_line_start(data, 0, offsets[i + 1] as int));
                assert(data[stop] == LF);
            }
            lemma_line_ends_are_boundaries(data, start);
            lemma_line_ends_are_boundaries(data, end);
            lemma_valid_between(data, start, end);
            decode_utf8_encode_utf8(kept);
            assert(lenient_text(kept) == decode_utf8(kept));
        },
    }
}

/// The texts of the lines before the last one of a plain file, with their
/// line feeds, are the lines as they stand in the data.
proof fn lemma_rejoined_texts_prefix(data: Seq<u8>, offsets: Seq<u64>, n: int)
    requires
        is_chunk_offsets(data, 0, usize::MAX, offsets),
        is_plain(data, offsets),
        0 <= n < offsets.len(),
    ensures
        rejoined_texts(data, offsets, n) == rejoined(data, offsets, n),
    decreases n,
{
    if n > 0 {
        lemma_rejoined_texts_prefix(data, offsets, n - 1);
        lemma_text_of_plain_line(data, offsets, n - 1);
    }
}

/// Round trip over the texts: in a plain file, one of valid UTF-8 without
/// carriage returns and with no line longer than the length cap, the
/// texts of all lines, joined by line feeds, are the file without the line
/// feed at its end.
pub proof fn lemma_texts_rejoin_to_data(data: Seq<u8>, offsets: Seq<u64>)
    requires
        is_chunk_offsets(data, 0, usize::MAX, offsets),
        is_plain(data, offsets),
    ensures
        rejoined_texts(data, offsets, offsets.len() as int) == without_last_feed(data),
{
    lemma_first_line_at_start(data, offsets);
    let n = offsets.len() as int;
    let last = n - 1;
    lemma_rejoined_texts_prefix(data, offsets, last);
    lemma_text_of_plain_line(data, offsets, last);
    lemma_lines_rejoin_to_data(data, offsets);
    let before = rejoined(data, offsets, last);
    let whole = whole_line(data, offsets, last);
    assert(rejoined(data, offsets, n) =~= before + whole);
    assert(rejoined_texts(data, offsets, n) =~= before + without_last_feed(whole));
    if whole.len() > 0 {
        assert(data.last() == whole.last());
        if whole.last() == LF {
            assert(before + whole.drop_last() =~= data.drop_last());
        }
    } else {
        assert(line_bounds(offsets, data.len() as int, last) is None);
        assert(data.len() == 0) by {
            assert(is_line_start(data, 0, offsets[last] as int));
        }
    }
}

/// Merging is associative: adding chunk `a` and then chunk `b` to an index
/// gives the same lines, timestamps, levels, entry flags and level counts
/// as adding the one chunk that holds the lines of `a` and then those of
/// `b`.
pub proof fn lemma_merge_is_associative(index: LogIndexView, a: IndexChunkView, b: IndexChunkView)
    ensures
        index.merged(a).merged(b) == index.merged(a.concat(b)),
{
    let two = index.merged(a).merged(b);
    let one = index.merged(a.concat(b));
    assert(two.line_offsets =~= one.line_offsets);
    assert(two.timestamps =~= one.timestamps);
    assert(two.levels =~= one.levels);
    assert(two.is_entry_start =~= one.is_entry_start);
    assert(two =~= one);
}

/// The nearest line at or before `i` that starts an entry; -1 where there
/// is none.
pub open spec fn entry_start_of(is_entry_start: Seq<bool>, i: int) -> int
    decreases i + 1,
{
    if i < 0 {
        -1
    } else if i < is_entry_start.len() && is_entry_start[i] {
        i
    } else {
        entry_start_of(is_entry_start, i - 1)
    }
}

/// Continuation lines inherit: in an index with a timestamp format, a line
/// among those read so far that starts no entry has the timestamp of the
/// nearest line before it that starts one, and no timestamp where no line
/// before it starts an entry. This holds across all batches in which the
/// lines were read.
pub proof fn lemma_continuation_inherits(index: LogIndexView, i: int)
    requires
        index.wf(),
        index.timestamp_format is Some,
        0 <= i < index.parse_cursor,
    ensures
        index.timestamps[i] == if entry_start_of(index.is_entry_start, i) < 0 {
            None
        } else {
            index.timestamps[entry_start_of(index.is_entry_start, i)]
        },
    decreases i,
{
    if !index.is_entry_start[i] {
        assert(index.timestamps[i] == stamp_before(index.timestamps, i));
        if i > 0 {
            lemma_continuation_inherits(index, i - 1);
        }
    }
}

/// The timestamp of a line among the first lines of a run does not depend
/// on the lines after them.
proof fn lemma_stamp_of_prefix(
    format: Option<TimestampFormat>,
    data: Seq<u8>,
    year: Seq<char>,
    offsets: Seq<u64>,
    carry: Option<i64>,
    count: int,
    i: int,
)
    requires
        0 <= count <= offsets.len(),
        -1 <= i < count,
    ensures
        read_stamp_at(format, data, year, offsets.take(count), carry, i) == read_stamp_at(
            format,
            data,
            year,
            offsets,
            carry,
            i,
        ),
    decreases i + 1,
{
    if i >= 0 {
        assert(offsets.take(count)[i] == offsets[i]);
        lemma_stamp_of_prefix(format, data, year, offsets, carry, count, i - 1);
    }
}

/// The timestamp of a line among the later lines of a run is what reading
/// these lines alone gives, with the timestamp of the line before them
/// handed on.
proof fn lemma_stamp_of_suffix(
    format: Option<TimestampFormat>,
    data: Seq<u8>,
    year: Seq<char>,
    offsets: Seq<u64>,
    carry: Option<i64>,
    count: int,
    i: int,
)
    requires
        format is Some,
        0 <= count <= offsets.len(),
        count - 1 <= i < offsets.len(),
    ensures
        read_stamp_at(format, data, year, offsets, carry, i) == read_stamp_at(
            format,
            data,
            year,
            offsets.skip(count),
            read_stamp_at(format, data, year, offsets, carry, count - 1),
            i - count,
        ),
    decreases i + 1,
{
    if i >= count {
        assert(offsets.skip(count)[i - count] == offsets[i]);
        lemma_stamp_of_suffix(format, data, year, offsets, carry, count, i - 1);
    }
}

/// Batches agree: reading the timestamps and levels of the next lines in
/// two batches, the second taking up what the first hands on, leaves the
/// index as reading them in one batch of both sizes does. So the index
/// does not depend on the sizes of the batches in which it was read.
pub proof fn lemma_batches_agree(
    index: LogIndexView,
    data: Seq<u8>,
    year: Seq<char>,
    first: usize,
    second: usize,
)
    requires
        index.wf(),
        first + second <= usize::MAX,
    ensures
        index.parsed(data, first, year).parsed(data, second, year) == index.parsed(
            data,
            (first + second) as usize,
            year,
        ),
{
    let both = (first + second) as usize;
    let format = index.timestamp_format;
    let start = index.parse_cursor as int;
    let total = index.line_offsets.len() as int;
    let mid = index.batch_end(first);
    let end = index.batch_end(both);
    let after_first = index.parsed(data, first, year);
    let two = after_first.parsed(data, second, year);
    let one = index.parsed(data, both, year);
    if index.ready() {
    } else if mid >= total {
        assert(after_first.ready());
        assert(end == total);
    } else {
        assert(!after_first.ready());
        assert(after_first.parse_cursor == mid);
        assert(after_first.batch_end(second) == end);
        let run = index.line_offsets.subrange(start, end);
        let run1 = index.line_offsets.subrange(start, mid);
        let run2 = index.line_offsets.subrange(mid, end);
        assert(after_first.line_offsets.subrange(mid, end) == run2);
        assert(run1 =~= run.take(mid - start));
        assert(run2 =~= run.skip(mid - start));
        let carry = index.last_parsed_ts;
        let stamps = read_stamps(format, data, year, run, carry);
        let stamps1 = read_stamps(format, data, year, run1, carry);
        let carry1 = after_first.last_parsed_ts;
        let stamps2 = read_stamps(format, data, year, run2, carry1);
        assert(carry1 == carried_on(format, carry, stamps1));
        if format is Some {
            lemma_stamp_of_prefix(format, data, year, run, carry, mid - start, mid - start - 1);
            assert(carry1 == read_stamp_at(format, data, year, run, carry, mid - start - 1));
            assert forall|k: int| 0 <= k < stamps.len() implies #[trigger] stamps[k] == if k < mid
                - start {
                stamps1[k]
            } else {
                stamps2[k - (mid - start)]
            } by {
                if k < mid - start {
                    lemma_stamp_of_prefix(format, data, year, run, carry, mid - start, k);
                } else {
                    lemma_stamp_of_suffix(format, data, year, run, carry, mid - start, k);
                }
            }
            assert(two.timestamps =~= one.timestamps);
            let flags = read_flags(format, data, year, run);
            let flags1 = read_flags(format, data, year, run1);
            let flags2 = read_flags(format, data, year, run2);
            assert forall|k: int| 0 <= k < flags.len() implies #[trigger] flags[k] == if k < mid
                - start {
                flags1[k]
            } else {
                flags2[k - (mid - start)]
            } by {}
            assert(two.is_entry_start =~= one.is_entry_start);
            assert(two.last_parsed_ts == one.last_parsed_ts);
        }
        let read = read_levels(data, run);
        let read1 = read_levels(data, run1);
        let read2 = read_levels(data, run2);
        assert forall|k: int| 0 <= k < read.len() implies #[trigger] read[k] == if k < mid - start {
            read1[k]
        } else {
            read2[k - (mid - start)]
        } by {}
        assert(two.levels =~= one.levels);
        assert(two =~= one);
    }
}

} // verus!
