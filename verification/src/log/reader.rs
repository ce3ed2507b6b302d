//! The data of a log file, memory-mapped or held in a buffer, together
//! with its index.

use super::index::{
    build_index_chunk, detect_timestamp_format, is_chunk_offsets, is_unstamped, needs_year,
    read_levels, sample_lines, IndexChunk, IndexChunkView, LogIndex, LogIndexView, SAMPLE_LINES,
};
use super::parser::{is_detected, LogLevel};
use super::tail::{pairs_view, scan_tail_of, tail_lines};
use crate::mapped::{mapped_bytes, mapped_data, share};
use crate::text::{get_line_from_data, line_text};
use memmap2::Mmap;
use std::sync::Arc;
use vstd::prelude::*;
use vstd::slice::slice_subrange;

verus! {

/// Files larger than this many bytes are memory-mapped.
pub const MMAP_THRESHOLD: u64 = 10 * 1024 * 1024;

/// The most lines that one step of scanning adds to the index.
pub const SCAN_BATCH_LINES: usize = 50_000;

/// The data of a log file and its index.
pub enum LogSource {
    /// A memory-mapped file. It is scanned for lines step by step:
    /// `scan_offset` is where the next step starts, `scan_limit` where
    /// scanning ends.
    Mmap { mmap: Arc<Mmap>, index: LogIndex, scan_offset: u64, scan_limit: u64 },
    /// A file, or a stream, that is held in memory and indexed at once.
    Buffered { content: Vec<u8>, index: LogIndex },
}

/// Whether a file has grown: whether it now has more bytes than the
/// `old_len` that are held. A file that is no larger, or smaller, is left
/// alone.
pub fn has_grown(old_len: u64, new_size: u64) -> (grew: bool)
    ensures
        grew == (new_size > old_len),
{
    new_size > old_len
}

/// Whether a chunk is what a step of scanning finds in `data` from `from`
/// on: the next line starts, with the level of each line and no
/// timestamps yet.
pub open spec fn is_scan_chunk(data: Seq<u8>, from: u64, max_lines: usize, chunk: IndexChunkView)
    -> bool {
    &&& is_chunk_offsets(data, from as int, max_lines, chunk.line_offsets)
    &&& chunk.levels == read_levels(data, chunk.line_offsets)
    &&& is_unstamped(chunk.line_offsets.len(), chunk.timestamps, chunk.is_entry_start)
}

/// Where scanning goes on after a chunk: behind the start of the chunk's
/// last line, or at `limit` where the chunk is empty.
pub open spec fn offset_after(chunk: IndexChunkView, limit: u64) -> u64 {
    if chunk.line_offsets.len() == 0 {
        limit
    } else if chunk.line_offsets.last() < u64::MAX {
        (chunk.line_offsets.last() + 1) as u64
    } else {
        chunk.line_offsets.last()
    }
}

/// Where scanning goes on after a chunk.
pub fn next_scan_offset(chunk: &IndexChunk, limit: u64) -> (next: u64)
    ensures
        next == offset_after(chunk@, limit),
{
    let n = chunk.line_offsets.len();
    if n == 0 {
        limit
    } else {
        let last = chunk.line_offsets[n - 1];
        if last < u64::MAX {
            last + 1
        } else {
            last
        }
    }
}

/// Whether a file of `size` bytes is memory-mapped rather than read into a
/// buffer.
pub fn should_map(size: u64) -> (map: bool)
    ensures
        map == (size > MMAP_THRESHOLD),
{
    size > MMAP_THRESHOLD
}

impl LogSource {
    /// The bytes of the file.
    pub open spec fn bytes(self) -> Seq<u8> {
        match self {
            LogSource::Mmap { mmap, .. } => mapped_bytes(&*mmap),
            LogSource::Buffered { content, .. } => content@,
        }
    }

    /// What the index holds.
    pub open spec fn index_view(self) -> LogIndexView {
        match self {
            LogSource::Mmap { index, .. } => index@,
            LogSource::Buffered { index, .. } => index@,
        }
    }

    /// Where the next step of scanning starts; 0 for a buffered file.
    pub open spec fn scan_from(self) -> u64 {
        match self {
            LogSource::Mmap { scan_offset, .. } => scan_offset,
            LogSource::Buffered { .. } => 0,
        }
    }

    /// Where scanning ends; 0 for a buffered file.
    pub open spec fn scan_to(self) -> u64 {
        match self {
            LogSource::Mmap { scan_limit, .. } => scan_limit,
            LogSource::Buffered { .. } => 0,
        }
    }

    /// Whether lines are left to scan.
    pub open spec fn is_scanning(self) -> bool {
        self.scan_from() < self.scan_to()
    }

    /// Whether the index keeps its invariant.
    pub open spec fn wf(self) -> bool {
        self.index_view().wf()
    }

    /// The end of the data that the next step of scanning reads.
    pub open spec fn scan_window(self) -> int {
        if self.scan_to() < self.bytes().len() {
            self.scan_to() as int
        } else {
            self.bytes().len() as int
        }
    }

    /// Whether this is the source after a step of scanning `before`:
    /// unchanged where no lines were left to scan; else the next line
    /// starts of the part of the file that is scanned, `SCAN_BATCH_LINES`
    /// at most, are in the index, as lines not read yet, and scanning goes
    /// on behind the last of them, or has ended where none was found.
    pub open spec fn scanned_from(self, before: LogSource) -> bool {
        if !before.is_scanning() {
            self.index_view() == before.index_view() && self.scan_from() == before.scan_from()
        } else {
            exists|chunk: IndexChunkView|
                {
                    &&& chunk.wf()
                    &&& is_scan_chunk(
                        before.bytes().take(before.scan_window()),
                        before.scan_from(),
                        SCAN_BATCH_LINES,
                        chunk,
                    )
                    &&& self.scan_from() == offset_after(chunk, before.scan_to())
                    &&& self.index_view() == if chunk.line_offsets.len() == 0 {
                        before.index_view()
                    } else {
                        before.index_view().merged(chunk)
                    }
                }
        }
    }

    /// Whether this is the source after the timestamps and levels of the
    /// next `batch_size` lines of `before` have been read, with some year
    /// taken for the year of a syslog timestamp.
    pub open spec fn parsed_from(self, before: LogSource, batch_size: usize) -> bool {
        &&& exists|year: Seq<char>|
            self.index_view() == before.index_view().parsed(before.bytes(), batch_size, year)
        &&& !needs_year(before.index_view().timestamp_format) ==> self.index_view()
            == before.index_view().parsed(before.bytes(), batch_size, Seq::empty())
    }

    /// Takes the content of a small file or of a stream and indexes all of
    /// it at once, timestamps and levels included.
    pub fn from_buffer(content: Vec<u8>) -> (source: Self)
        ensures
            source.wf(),
            source is Buffered,
            source.bytes() == content@,
            is_detected(
                sample_lines(content@, 0, SAMPLE_LINES as nat),
                source.index_view().timestamp_format,
            ),
            exists|chunk: IndexChunk, year: Seq<char>|
                chunk.wf() && chunk.indexes(
                    content@,
                    0,
                    usize::MAX,
                    source.index_view().timestamp_format,
                    false,
                    year,
                ) && source.index_view() == LogIndexView::empty(
                    source.index_view().timestamp_format,
                ).merged(chunk@),
    {
        let ts_format = detect_timestamp_format(content.as_slice());
        let mut index = LogIndex::with_format(ts_format.clone());
        let chunk = build_index_chunk(content.as_slice(), 0, usize::MAX, &ts_format, false);
        index.merge_chunk(chunk);
        LogSource::Buffered { content, index }
    }

    /// Takes the mapping of a large file and indexes its first lines, line
    /// starts and levels; the rest is left to `scan_batch`, the timestamps
    /// to `parse_deferred_batch`.
    pub fn from_mapping(mmap: Arc<Mmap>) -> (source: Self)
        ensures
            source.wf(),
            source is Mmap,
            source.bytes() == mapped_bytes(&*mmap),
            source.scan_to() == mapped_bytes(&*mmap).len(),
            is_detected(
                sample_lines(source.bytes(), 0, SAMPLE_LINES as nat),
                source.index_view().timestamp_format,
            ),
            exists|chunk: IndexChunkView|
                chunk.wf() && is_scan_chunk(source.bytes(), 0, SCAN_BATCH_LINES, chunk)
                    && source.index_view() == LogIndexView::empty(
                    source.index_view().timestamp_format,
                ).merged(chunk) && source.scan_from() == offset_after(chunk, source.scan_to()),
    {
        let data = mapped_data(&mmap);
        let size = data.len() as u64;
        let ts_format = detect_timestamp_format(data);
        let mut index = LogIndex::with_format(ts_format.clone());
        let chunk = build_index_chunk(data, 0, SCAN_BATCH_LINES, &ts_format, true);
        let scan_offset = next_scan_offset(&chunk, size);
        proof {
            assert(is_scan_chunk(data@, 0, SCAN_BATCH_LINES, chunk@));
        }
        index.merge_chunk(chunk);
        LogSource::Mmap { mmap, index, scan_offset, scan_limit: size }
    }

    /// Whether the file is memory-mapped.
    pub fn is_mmap(&self) -> (mapped: bool)
        ensures
            mapped == (*self is Mmap),
    {
        match self {
            LogSource::Mmap { .. } => true,
            LogSource::Buffered { .. } => false,
        }
    }

    /// Another handle on the mapping, for a memory-mapped file.
    pub fn mmap_arc(&self) -> (res: Option<Arc<Mmap>>)
        ensures
            match res {
                Some(shared) => *self is Mmap && shared == self->mmap,
                None => *self is Buffered,
            },
    {
        match self {
            LogSource::Mmap { mmap, .. } => Some(share(mmap)),
            LogSource::Buffered { .. } => None,
        }
    }

    /// The bytes of the file.
    pub fn data(&self) -> (data: &[u8])
        ensures
            data@ == self.bytes(),
    {
        match self {
            LogSource::Mmap { mmap, .. } => mapped_data(mmap),
            LogSource::Buffered { content, .. } => content.as_slice(),
        }
    }

    /// The index of the file.
    pub fn index(&self) -> (index: &LogIndex)
        ensures
            index@ == self.index_view(),
    {
        match self {
            LogSource::Mmap { index, .. } => index,
            LogSource::Buffered { index, .. } => index,
        }
    }

    /// The text of a line: its bytes up to the next line, at most
    /// `MAX_LINE_BYTES` of them, without the line feeds and carriage
    /// returns at their end, decoded leniently. `None` where the index
    /// holds no such line or the line starts behind the data.
    pub fn get_line(&self, line_num: usize) -> (res: Option<String>)
        ensures
            match res {
                Some(text) => self.line(line_num as int) == Some(text@),
                None => self.line(line_num as int) is None,
            },
    {
        let data = self.data();
        get_line_from_data(data, self.index().line_offsets().as_slice(), data.len(), line_num)
    }

    /// The text of line `i`.
    pub open spec fn line(self, i: int) -> Option<Seq<char>> {
        line_text(self.bytes(), self.index_view().line_offsets, self.bytes().len() as int, i)
    }

    /// Reads the timestamps and levels of the next `batch_size` lines and
    /// returns whether lines are left to read.
    pub fn parse_deferred_batch(&mut self, batch_size: usize) -> (more: bool)
        requires
            old(self).wf(),
        ensures
            final(self).wf(),
            final(self).bytes() == old(self).bytes(),
            final(self).scan_from() == old(self).scan_from(),
            final(self).scan_to() == old(self).scan_to(),
            (*final(self) is Mmap) == (*old(self) is Mmap),
            final(self).parsed_from(*old(self), batch_size),
            more == !final(self).index_view().ready(),
    {
        match self {
            LogSource::Mmap { mmap, index, .. } => {
                index.parse_deferred_batch(mapped_data(mmap), batch_size)
            },
            LogSource::Buffered { content, index } => {
                index.parse_deferred_batch(content.as_slice(), batch_size)
            },
        }
    }

    /// Puts a run of read metadata into the index, where the index accepts
    /// it.
    pub fn apply_deferred_batch(
        &mut self,
        start_index: usize,
        timestamps: Vec<Option<i64>>,
        levels: Vec<LogLevel>,
        is_entry_start: Vec<bool>,
    ) -> (done: bool)
        requires
            old(self).wf(),
        ensures
            final(self).wf(),
            final(self).bytes() == old(self).bytes(),
            final(self).scan_from() == old(self).scan_from(),
            final(self).scan_to() == old(self).scan_to(),
            (*final(self) is Mmap) == (*old(self) is Mmap),
            done == old(self).index_view().accepts(
                start_index as int,
                timestamps@,
                levels@,
                is_entry_start@,
            ),
            done ==> final(self).index_view() == old(self).index_view().applied(
                timestamps@,
                levels@,
                is_entry_start@,
            ),
            !done ==> final(self).index_view() == old(self).index_view(),
    {
        match self {
            LogSource::Mmap { index, .. } => {
                index.apply_deferred_batch(start_index, timestamps, levels, is_entry_start)
            },
            LogSource::Buffered { index, .. } => {
                index.apply_deferred_batch(start_index, timestamps, levels, is_entry_start)
            },
        }
    }

    /// Whether the timestamp and level of every line have been read.
    pub fn indexing_ready(&self) -> (ready: bool)
        ensures
            ready == self.index_view().ready(),
    {
        let index = self.index();
        index.timestamps_ready() && index.levels_ready()
    }

    /// Whether lines are left to scan.
    pub fn scanning(&self) -> (scanning: bool)
        ensures
            scanning == self.is_scanning(),
    {
        match self {
            LogSource::Mmap { scan_offset, scan_limit, .. } => *scan_offset < *scan_limit,
            LogSource::Buffered { .. } => false,
        }
    }

    /// How far scanning has come and where it ends, while lines are left
    /// to scan.
    pub fn scan_progress(&self) -> (res: Option<(u64, u64)>)
        ensures
            res == if self.is_scanning() {
                Some((self.scan_from(), self.scan_to()))
            } else {
                None
            },
    {
        match self {
            LogSource::Mmap { scan_offset, scan_limit, .. } => {
                if *scan_offset < *scan_limit {
                    Some((*scan_offset, *scan_limit))
                } else {
                    None
                }
            },
            LogSource::Buffered { .. } => None,
        }
    }

    /// Takes in what a step of scanning found: adds the chunk's lines to
    /// the index and goes on at `next_offset`. An empty chunk ends
    /// scanning. A buffered file is not scanned: nothing changes. Returns
    /// whether scanning has ended.
    pub fn merge_scan_chunk(&mut self, chunk: IndexChunk, next_offset: u64) -> (finished: bool)
        requires
            old(self).wf(),
            chunk.wf(),
        ensures
            final(self).wf(),
            final(self).bytes() == old(self).bytes(),
            final(self).scan_to() == old(self).scan_to(),
            (*final(self) is Mmap) == (*old(self) is Mmap),
            (*old(self) is Buffered) ==> final(self).index_view() == old(self).index_view(),
            (*old(self) is Mmap) ==> final(self).scan_from() == if chunk@.line_offsets.len() == 0 {
                old(self).scan_to()
            } else {
                next_offset
            },
            (*old(self) is Mmap) ==> final(self).index_view() == if chunk@.line_offsets.len() == 0 {
                old(self).index_view()
            } else {
                old(self).index_view().merged(chunk@)
            },
            finished == !final(self).is_scanning(),
    {
        match self {
            LogSource::Mmap { index, scan_offset, scan_limit, .. } => {
                if chunk.line_offsets.len() == 0 {
                    *scan_offset = *scan_limit;
                } else {
                    index.merge_chunk(chunk);
                    *scan_offset = next_offset;
                }
                *scan_offset >= *scan_limit
            },
            LogSource::Buffered { .. } => true,
        }
    }

    /// Scans the next lines of a memory-mapped file, `SCAN_BATCH_LINES` at
    /// most, and adds them to the index with the metadata of lines not
    /// read yet. Returns whether lines are left to scan. Nothing changes
    /// where none were.
    pub fn scan_batch(&mut self) -> (more: bool)
        requires
            old(self).wf(),
        ensures
            final(self).wf(),
            final(self).bytes() == old(self).bytes(),
            final(self).scan_to() == old(self).scan_to(),
            (*final(self) is Mmap) == (*old(self) is Mmap),
            more == final(self).is_scanning(),
            final(self).scanned_from(*old(self)),
    {
        match self {
            LogSource::Mmap { mmap, index, scan_offset, scan_limit } => {
                if *scan_offset >= *scan_limit {
                    return false;
                }
                let data = mapped_data(mmap);
                let limit = if *scan_limit < data.len() as u64 {
                    *scan_limit as usize
                } else {
                    data.len()
                };
                let window = slice_subrange(data, 0, limit);
                let ts_format = index.timestamp_format().clone();
                let chunk = build_index_chunk(
                    window,
                    *scan_offset,
                    SCAN_BATCH_LINES,
                    &ts_format,
                    true,
                );
                let ghost found = chunk@;
                proof {
                    assert(window@ =~= data@.take(limit as int));
                    assert(is_scan_chunk(window@, *scan_offset, SCAN_BATCH_LINES, found));
                }
                let next = next_scan_offset(&chunk, *scan_limit);
                if chunk.line_offsets.len() == 0 {
                    *scan_offset = *scan_limit;
                    return false;
                }
                *scan_offset = next;
                index.merge_chunk(chunk);
                *scan_offset < *scan_limit
            },
            LogSource::Buffered { .. } => false,
        }
    }

    /// The last `count` lines of the file, read straight from its data,
    /// each with its level: what follows the last line feed but `count`.
    pub fn scan_tail(&self, count: usize) -> (pairs: Vec<(String, LogLevel)>)
        ensures
            pairs_view(pairs@) == tail_lines(self.bytes(), count),
    {
        scan_tail_of(self.data(), count)
    }

    /// Takes the new mapping of a memory-mapped file that has grown, and
    /// indexes exactly what lies behind the bytes that were there before:
    /// line starts and levels, no timestamps yet. Returns whether lines
    /// were added. A buffered file is left as it is.
    pub fn reload_mapped(&mut self, grown: Arc<Mmap>) -> (added: bool)
        requires
            old(self).wf(),
        ensures
            final(self).wf(),
            (*final(self) is Mmap) == (*old(self) is Mmap),
            final(self).scan_from() == old(self).scan_from(),
            final(self).scan_to() == old(self).scan_to(),
            (*old(self) is Buffered) ==> !added && final(self).bytes() == old(self).bytes()
                && final(self).index_view() == old(self).index_view(),
            (*old(self) is Mmap) ==> final(self).bytes() == mapped_bytes(&*grown) && exists|
                chunk: IndexChunkView,
            |
                {
                    &&& chunk.wf()
                    &&& is_scan_chunk(
                        mapped_bytes(&*grown),
                        old(self).bytes().len() as u64,
                        usize::MAX,
                        chunk,
                    )
                    &&& added == (chunk.line_offsets.len() > 0)
                    &&& final(self).index_view() == if added {
                        old(self).index_view().merged(chunk)
                    } else {
                        old(self).index_view()
                    }
                },
    {
        match self {
            LogSource::Mmap { mmap, index, .. } => {
                let old_size = mapped_data(mmap).len() as u64;
                *mmap = grown;
                let ts_format = index.timestamp_format().clone();
                let chunk = build_index_chunk(
                    mapped_data(mmap),
                    old_size,
                    usize::MAX,
                    &ts_format,
                    true,
                );
                let ghost found = chunk@;
                proof {
                    assert(is_scan_chunk(mapped_bytes(&*grown), old_size, usize::MAX, found));
                }
                if chunk.line_offsets.len() == 0 {
                    return false;
                }
                index.merge_chunk(chunk);
                true
            },
            LogSource::Buffered { .. } => false,
        }
    }

    /// Appends what a buffered file has grown by, and indexes it: line
    /// starts and levels, no timestamps yet. Returns whether lines were
    /// added. A memory-mapped file is left as it is, and so is a buffered
    /// one where no bytes are given.
    pub fn reload_buffered(&mut self, new_bytes: &[u8]) -> (added: bool)
        requires
            old(self).wf(),
        ensures
            final(self).wf(),
            (*final(self) is Mmap) == (*old(self) is Mmap),
            final(self).scan_from() == old(self).scan_from(),
            final(self).scan_to() == old(self).scan_to(),
            ((*old(self) is Mmap) || new_bytes@.len() == 0) ==> !added
                && final(self).bytes() == old(self).bytes()
                && final(self).index_view() == old(self).index_view(),
            ((*old(self) is Buffered) && new_bytes@.len() > 0) ==> final(self).bytes()
                == old(self).bytes() + new_bytes@ && exists|chunk: IndexChunkView|
                {
                    &&& chunk.wf()
                    &&& is_scan_chunk(
                        old(self).bytes() + new_bytes@,
                        old(self).bytes().len() as u64,
                        usize::MAX,
                        chunk,
                    )
                    &&& added == (chunk.line_offsets.len() > 0)
                    &&& final(self).index_view() == if added {
                        old(self).index_view().merged(chunk)
                    } else {
                        old(self).index_view()
                    }
                },
    {
        match self {
            LogSource::Mmap { .. } => false,
            LogSource::Buffered { content, index } => {
                if new_bytes.len() == 0 {
                    return false;
                }
                let base_offset = content.len() as u64;
                let ghost old_bytes = content@;
                content.extend_from_slice(new_bytes);
                let ts_format = index.timestamp_format().clone();
                let chunk = build_index_chunk(
                    content.as_slice(),
                    base_offset,
                    usize::MAX,
                    &ts_format,
                    true,
                );
                let ghost found = chunk@;
                let ghost before = index@;
                let ghost grown = content@;
                proof {
                    assert(is_scan_chunk(content@, base_offset, usize::MAX, found));
                }
                let added = chunk.line_offsets.len() > 0;
                if added {
                    index.merge_chunk(chunk);
                }
                proof {
                    assert(found.wf());
                    assert(grown == old_bytes + new_bytes@);
                    assert(old_bytes.len() as u64 == base_offset);
                    assert(is_scan_chunk(
                        old_bytes + new_bytes@,
                        old_bytes.len() as u64,
                        usize::MAX,
                        found,
                    ));
                    assert(added == (found.line_offsets.len() > 0));
                    assert(index@ == if added {
                        before.merged(found)
                    } else {
                        before
                    });
                }
                added
            },
        }
    }
}

} // verus!
