//! The work that is done in the background for a memory-mapped file: what
//! can be asked for, what comes back, and how a request is carried out.

use crate::log::index::{
    build_index_chunk, needs_year, parse_deferred_range, DeferredParseResult, IndexChunk,
    LevelCounts,
};
use crate::log::parser::{LogLevel, TimestampFormat};
use crate::log::reader::{is_scan_chunk, next_scan_offset, offset_after};
use crate::mapped::{mapped_bytes, mapped_data};
use crate::matching::{
    batch_stop, filter_lines, matching_lines_in, passing_lines_in, search_lines,
    STOP_CHECK_LINES,
};
use crate::text::usable_len;
use memmap2::Mmap;
use regex::Regex;
use std::sync::atomic::AtomicBool;
use std::sync::Arc;
use vstd::prelude::*;
use vstd::slice::slice_subrange;

verus! {

/// The number of a search or of a filter run. Each new one gets a new
/// number, and what comes back under an old number is dropped.
pub type Generation = u64;

/// A unit of work for the background worker.
pub enum WorkRequest {
    /// Find the next line starts from `start_byte` on, `max_lines` at most,
    /// in the first `scan_limit` bytes of the file.
    ScanBatch {
        mmap: Arc<Mmap>,
        start_byte: u64,
        scan_limit: u64,
        ts_format: Option<TimestampFormat>,
        max_lines: usize,
    },
    /// Read the timestamps and levels of the lines that start at `offsets`;
    /// `start_index` is the number of the first of them, `last_ts` the
    /// timestamp that the lines before them hand on.
    DeferredParseBatch {
        mmap: Arc<Mmap>,
        offsets: Vec<u64>,
        start_index: usize,
        ts_format: Option<TimestampFormat>,
        last_ts: Option<i64>,
    },
    /// Search `batch_size` lines from `start_line` on for `regex`, with the
    /// line starts as they were when the search began.
    SearchBatch {
        mmap: Arc<Mmap>,
        regex: Regex,
        line_offsets: Arc<Vec<u64>>,
        data_len: usize,
        start_line: usize,
        batch_size: usize,
        generation: Generation,
        cancel: Arc<AtomicBool>,
    },
    /// Hold `batch_size` lines from `start_line` on against the filter
    /// conditions, each an expression and whether it is negated.
    FilterBatch {
        mmap: Arc<Mmap>,
        conditions: Vec<(Regex, bool)>,
        line_offsets: Arc<Vec<u64>>,
        data_len: usize,
        start_line: usize,
        batch_size: usize,
        generation: Generation,
        cancel: Arc<AtomicBool>,
    },
    /// End the worker.
    Quit,
}

/// What the background worker hands back for a request.
pub enum WorkResult {
    ScanChunk { chunk: IndexChunk, next_offset: u64 },
    DeferredParsed {
        start_index: usize,
        timestamps: Vec<Option<i64>>,
        levels: Vec<LogLevel>,
        is_entry_start: Vec<bool>,
        level_counts_delta: LevelCounts,
        last_parsed_ts: Option<i64>,
    },
    SearchBatch { matches: Vec<usize>, cursor: usize, done: bool, generation: Generation },
    FilterBatch { matches: Vec<usize>, cursor: usize, done: bool, generation: Generation },
}

/// The end of the data that a scan up to `scan_limit` reads.
pub open spec fn scan_end(data: Seq<u8>, scan_limit: u64) -> int {
    if scan_limit < data.len() {
        scan_limit as int
    } else {
        data.len() as int
    }
}

/// Whether a walk of a batch of lines may have ended at `cursor` with
/// `done` reported: at the batch's end, or, stopped on request, before a
/// line of the batch whose number is a multiple of `STOP_CHECK_LINES`. The
/// work is done where the last line is behind: a walk that was stopped
/// before that is not done.
pub open spec fn is_batch_end(
    total: int,
    start_line: usize,
    batch_size: usize,
    cursor: usize,
    done: bool,
) -> bool {
    let stop = batch_stop(total, start_line, batch_size);
    &&& cursor == stop || (start_line <= cursor < stop && cursor % STOP_CHECK_LINES == 0)
    &&& done == (cursor >= total)
}

/// Whether `result` answers `request`.
pub open spec fn answers(request: WorkRequest, result: Option<WorkResult>) -> bool {
    match request {
        WorkRequest::Quit => result is None,
        WorkRequest::ScanBatch { mmap, start_byte, scan_limit, ts_format, max_lines } => {
            &&& result matches Some(WorkResult::ScanChunk { chunk, next_offset })
            &&& chunk.wf()
            &&& is_scan_chunk(
                mapped_bytes(&*mmap).take(scan_end(mapped_bytes(&*mmap), scan_limit)),
                start_byte,
                max_lines,
                chunk@,
            )
            &&& next_offset == offset_after(chunk@, scan_limit)
        },
        WorkRequest::DeferredParseBatch { mmap, offsets, start_index, ts_format, last_ts } => {
            &&& result matches Some(
                WorkResult::DeferredParsed {
                    start_index: at,
                    timestamps,
                    levels,
                    is_entry_start,
                    level_counts_delta,
                    last_parsed_ts,
                },
            )
            &&& at == start_index
            &&& exists|year: Seq<char>|
                (DeferredParseResult {
                    timestamps,
                    levels,
                    is_entry_start,
                    level_counts_delta,
                    last_parsed_ts,
                }).reads(mapped_bytes(&*mmap), offsets@, ts_format, last_ts, year)
            &&& !needs_year(ts_format) ==> (DeferredParseResult {
                timestamps,
                levels,
                is_entry_start,
                level_counts_delta,
                last_parsed_ts,
            }).reads(mapped_bytes(&*mmap), offsets@, ts_format, last_ts, Seq::empty())
        },
        WorkRequest::SearchBatch {
            mmap,
            regex,
            line_offsets,
            data_len,
            start_line,
            batch_size,
            generation,
            cancel,
        } => {
            &&& result matches Some(
                WorkResult::SearchBatch { matches, cursor, done, generation: tag },
            )
            &&& tag == generation
            &&& is_batch_end(line_offsets@.len() as int, start_line, batch_size, cursor, done)
            &&& matches@ == matching_lines_in(
                &regex,
                mapped_bytes(&*mmap),
                line_offsets@,
                usable_len(mapped_bytes(&*mmap), data_len),
                start_line as int,
                cursor as int,
            )
        },
        WorkRequest::FilterBatch {
            mmap,
            conditions,
            line_offsets,
            data_len,
            start_line,
            batch_size,
            generation,
            cancel,
        } => {
            &&& result matches Some(
                WorkResult::FilterBatch { matches, cursor, done, generation: tag },
            )
            &&& tag == generation
            &&& is_batch_end(line_offsets@.len() as int, start_line, batch_size, cursor, done)
            &&& matches@ == passing_lines_in(
                conditions@,
                mapped_bytes(&*mmap),
                line_offsets@,
                usable_len(mapped_bytes(&*mmap), data_len),
                start_line as int,
                cursor as int,
            )
        },
    }
}

/// Carries out one request and returns what is to be handed back; `None`
/// for the request to end.
pub fn handle_request(request: WorkRequest) -> (result: Option<WorkResult>)
    ensures
        answers(request, result),
{
    match request {
        WorkRequest::Quit => None,
        WorkRequest::ScanBatch { mmap, start_byte, scan_limit, ts_format, max_lines } => {
            let data = mapped_data(&mmap);
            let limit = if scan_limit < data.len() as u64 {
                scan_limit as usize
            } else {
                data.len()
            };
            let window = slice_subrange(data, 0, limit);
            proof {
                assert(window@ =~= data@.take(limit as int));
            }
            let chunk = build_index_chunk(window, start_byte, max_lines, &ts_format, true);
            let next_offset = next_scan_offset(&chunk, scan_limit);
            Some(WorkResult::ScanChunk { chunk, next_offset })
        },
        WorkRequest::DeferredParseBatch { mmap, offsets, start_index, ts_format, last_ts } => {
            let data = mapped_data(&mmap);
            let parsed = parse_deferred_range(data, offsets.as_slice(), &ts_format, last_ts);
            Some(
                WorkResult::DeferredParsed {
                    start_index,
                    timestamps: parsed.timestamps,
                    levels: parsed.levels,
                    is_entry_start: parsed.is_entry_start,
                    level_counts_delta: parsed.level_counts_delta,
                    last_parsed_ts: parsed.last_parsed_ts,
                },
            )
        },
        WorkRequest::SearchBatch {
            mmap,
            regex,
            line_offsets,
            data_len,
            start_line,
            batch_size,
            generation,
            cancel,
        } => {
            let data = mapped_data(&mmap);
            let total = line_offsets.len();
            let out = search_lines(
                data,
                &regex,
                line_offsets.as_slice(),
                data_len,
                start_line,
                batch_size,
                total,
                Some(&cancel),
            );
            let done = out.cursor >= total;
            Some(
                WorkResult::SearchBatch {
                    matches: out.matches,
                    cursor: out.cursor,
                    done,
                    generation,
                },
            )
        },
        WorkRequest::FilterBatch {
            mmap,
            conditions,
            line_offsets,
            data_len,
            start_line,
            batch_size,
            generation,
            cancel,
        } => {
            let data = mapped_data(&mmap);
            let total = line_offsets.len();
            let out = filter_lines(
                data,
                conditions.as_slice(),
                line_offsets.as_slice(),
                data_len,
                start_line,
                batch_size,
                total,
                Some(&cancel),
            );
            let done = out.cursor >= total;
            Some(
                WorkResult::FilterBatch {
                    matches: out.matches,
                    cursor: out.cursor,
                    done,
                    generation,
                },
            )
        },
    }
}

} // verus!
