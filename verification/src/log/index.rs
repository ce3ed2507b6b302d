//! The progressive index of a log file: where each line starts, its
//! timestamp, its level, whether it starts an entry, and how many lines
//! there are of each level.

use super::parser::{
    epoch_millis, is_detected, level_of, texts_of, LevelClassifier, LogLevel, TimestampFormat,
    TimestampKind,
};
use crate::datetime::current_year;
use crate::text::{
    decode_text, find_byte, find_in_range, lemma_find_byte, line_probe, probe_bytes, probe_text,
    LF, PROBE_BYTES,
};
use vstd::utf8::{decode_utf8, valid_utf8};
use vstd::string::*;
use vstd::prelude::*;
use vstd::slice::slice_subrange;

verus! {

/// The line starts and the metadata of a run of consecutive lines.
pub struct IndexChunk {
    pub line_offsets: Vec<u64>,
    pub timestamps: Vec<Option<i64>>,
    pub levels: Vec<LogLevel>,
    pub is_entry_start: Vec<bool>,
}

/// How many lines there are of each level but `Unknown`.
#[derive(Debug, Clone, Copy, PartialEq, Eq, Structural)]
pub struct LevelCounts {
    pub error: usize,
    pub warn: usize,
    pub info: usize,
    pub debug: usize,
    pub trace: usize,
}

/// How many of the levels are `level`.
pub open spec fn count_level(levels: Seq<LogLevel>, level: LogLevel) -> nat
    decreases levels.len(),
{
    if levels.len() == 0 {
        0
    } else {
        count_level(levels.drop_last(), level) + if levels.last() == level {
            1nat
        } else {
            0nat
        }
    }
}

/// No level is counted more often than there are lines.
pub proof fn lemma_count_level_bound(levels: Seq<LogLevel>, level: LogLevel)
    ensures
        count_level(levels, level) <= levels.len(),
    decreases levels.len(),
{
    if levels.len() > 0 {
        lemma_count_level_bound(levels.drop_last(), level);
    }
}

/// One more line adds one to the count of its level and nothing to the
/// others.
pub proof fn lemma_count_level_push(levels: Seq<LogLevel>, added: LogLevel, level: LogLevel)
    ensures
        count_level(levels.push(added), level) == count_level(levels, level) + if added == level {
            1nat
        } else {
            0nat
        },
{
    assert(levels.push(added).drop_last() =~= levels);
}

/// Changing one line's level moves one count from the old level to the new.
pub proof fn lemma_count_level_update(
    levels: Seq<LogLevel>,
    at: int,
    changed: LogLevel,
    level: LogLevel,
)
    requires
        0 <= at < levels.len(),
    ensures
        count_level(levels.update(at, changed), level) + (if levels[at] == level {
            1nat
        } else {
            0nat
        }) == count_level(levels, level) + if changed == level {
            1nat
        } else {
            0nat
        },
    decreases levels.len(),
{
    let updated = levels.update(at, changed);
    if at == levels.len() - 1 {
        assert(updated.drop_last() =~= levels.drop_last());
    } else {
        assert(updated.drop_last() =~= levels.drop_last().update(at, changed));
        lemma_count_level_update(levels.drop_last(), at, changed, level);
    }
}

impl LevelCounts {
    /// Whether these are the counts of the given lines' levels.
    pub open spec fn tallies(self, levels: Seq<LogLevel>) -> bool {
        &&& self.error == count_level(levels, LogLevel::Error)
        &&& self.warn == count_level(levels, LogLevel::Warn)
        &&& self.info == count_level(levels, LogLevel::Info)
        &&& self.debug == count_level(levels, LogLevel::Debug)
        &&& self.trace == count_level(levels, LogLevel::Trace)
    }

    /// The counts with one more line of `level`.
    pub open spec fn plus(self, level: LogLevel) -> LevelCounts {
        match level {
            LogLevel::Error => LevelCounts { error: (self.error + 1) as usize, ..self },
            LogLevel::Warn => LevelCounts { warn: (self.warn + 1) as usize, ..self },
            LogLevel::Info => LevelCounts { info: (self.info + 1) as usize, ..self },
            LogLevel::Debug => LevelCounts { debug: (self.debug + 1) as usize, ..self },
            LogLevel::Trace => LevelCounts { trace: (self.trace + 1) as usize, ..self },
            LogLevel::Unknown => self,
        }
    }

    /// Counts one more line of `level`.
    pub fn record(&mut self, level: LogLevel)
        requires
            match level {
                LogLevel::Error => old(self).error < usize::MAX,
                LogLevel::Warn => old(self).warn < usize::MAX,
                LogLevel::Info => old(self).info < usize::MAX,
                LogLevel::Debug => old(self).debug < usize::MAX,
                LogLevel::Trace => old(self).trace < usize::MAX,
                LogLevel::Unknown => true,
            },
        ensures
            *final(self) == old(self).plus(level),
    {
        match level {
            LogLevel::Error => self.error = self.error + 1,
            LogLevel::Warn => self.warn = self.warn + 1,
            LogLevel::Info => self.info = self.info + 1,
            LogLevel::Debug => self.debug = self.debug + 1,
            LogLevel::Trace => self.trace = self.trace + 1,
            LogLevel::Unknown => {},
        }
    }
}

impl LevelCounts {
    /// The counts of no lines.
    pub open spec fn default_counts() -> LevelCounts {
        LevelCounts { error: 0, warn: 0, info: 0, debug: 0, trace: 0 }
    }
}

impl Default for LevelCounts {
    fn default() -> (counts: Self)
        ensures
            counts == LevelCounts::default_counts(),
    {
        LevelCounts { error: 0, warn: 0, info: 0, debug: 0, trace: 0 }
    }
}

/// Counting one more line keeps the counts in step with the lines.
pub proof fn lemma_tally_push(counts: LevelCounts, levels: Seq<LogLevel>, added: LogLevel)
    requires
        counts.tallies(levels),
        levels.len() < usize::MAX,
    ensures
        counts.plus(added).tallies(levels.push(added)),
        match added {
            LogLevel::Error => counts.error < usize::MAX,
            LogLevel::Warn => counts.warn < usize::MAX,
            LogLevel::Info => counts.info < usize::MAX,
            LogLevel::Debug => counts.debug < usize::MAX,
            LogLevel::Trace => counts.trace < usize::MAX,
            LogLevel::Unknown => true,
        },
{
    lemma_count_level_push(levels, added, LogLevel::Error);
    lemma_count_level_push(levels, added, LogLevel::Warn);
    lemma_count_level_push(levels, added, LogLevel::Info);
    lemma_count_level_push(levels, added, LogLevel::Debug);
    lemma_count_level_push(levels, added, LogLevel::Trace);
    lemma_count_level_bound(levels, LogLevel::Error);
    lemma_count_level_bound(levels, LogLevel::Warn);
    lemma_count_level_bound(levels, LogLevel::Info);
    lemma_count_level_bound(levels, LogLevel::Debug);
    lemma_count_level_bound(levels, LogLevel::Trace);
}

/// Giving a line of unknown level a level keeps the counts in step with
/// the lines.
pub proof fn lemma_tally_fill(counts: LevelCounts, levels: Seq<LogLevel>, at: int, found: LogLevel)
    requires
        counts.tallies(levels),
        0 <= at < levels.len(),
        levels[at] == LogLevel::Unknown,
        levels.len() <= usize::MAX,
    ensures
        counts.plus(found).tallies(levels.update(at, found)),
        match found {
            LogLevel::Error => counts.error < usize::MAX,
            LogLevel::Warn => counts.warn < usize::MAX,
            LogLevel::Info => counts.info < usize::MAX,
            LogLevel::Debug => counts.debug < usize::MAX,
            LogLevel::Trace => counts.trace < usize::MAX,
            LogLevel::Unknown => true,
        },
{
    lemma_count_level_update(levels, at, found, LogLevel::Error);
    lemma_count_level_update(levels, at, found, LogLevel::Warn);
    lemma_count_level_update(levels, at, found, LogLevel::Info);
    lemma_count_level_update(levels, at, found, LogLevel::Debug);
    lemma_count_level_update(levels, at, found, LogLevel::Trace);
    let updated = levels.update(at, found);
    lemma_count_level_bound(updated, LogLevel::Error);
    lemma_count_level_bound(updated, LogLevel::Warn);
    lemma_count_level_bound(updated, LogLevel::Info);
    lemma_count_level_bound(updated, LogLevel::Debug);
    lemma_count_level_bound(updated, LogLevel::Trace);
}

/// Whether a line starts at `p`, for a scan that starts at `from`. The scan
/// takes `from` itself for a line start where it is the start of the data
/// or follows a line feed; after that, a line starts after each line feed
/// that is not the last byte of the data.
pub open spec fn is_line_start(data: Seq<u8>, from: int, p: int) -> bool {
    ||| p == from && (from == 0 || (0 < from <= data.len() && data[from - 1] == LF))
    ||| from < p < data.len() && data[p - 1] == LF
}

/// How far a chunk's line starts are complete: to the end of the data where
/// the chunk holds fewer lines than it may, else to its last line start.
pub open spec fn chunk_reach(data: Seq<u8>, max_lines: usize, offsets: Seq<u64>) -> int {
    if offsets.len() < max_lines {
        data.len() as int
    } else if offsets.len() > 0 {
        offsets.last() as int
    } else {
        -1
    }
}

/// Whether `offsets` are the line starts that a scan of `data` from `from`
/// finds, in order, up to `max_lines` of them.
pub open spec fn is_chunk_offsets(data: Seq<u8>, from: int, max_lines: usize, offsets: Seq<u64>)
    -> bool {
    &&& offsets.len() <= max_lines
    &&& forall|i: int| 0 <= i < offsets.len() ==> is_line_start(data, from, #[trigger] offsets[i] as int)
    &&& forall|i: int, j: int| 0 <= i < j < offsets.len() ==> offsets[i] < offsets[j]
    &&& forall|p: int|
        from <= p <= chunk_reach(data, max_lines, offsets) && #[trigger] is_line_start(data, from, p)
            ==> exists|i: int| 0 <= i < offsets.len() && offsets[i] == p
}

/// The level of the line that starts at `start`.
pub open spec fn line_level(data: Seq<u8>, start: int) -> LogLevel {
    level_of(probe_text(data, start))
}

/// The timestamp that the line starting at `start` holds itself.
pub open spec fn line_stamp(format: Option<TimestampFormat>, data: Seq<u8>, start: int, year: Seq<char>)
    -> Option<i64> {
    match format {
        Some(f) => epoch_millis(f.kind, &f.regex, probe_text(data, start), year),
        None => None,
    }
}

/// The timestamp of line `i` of the lines that start at `offsets`: its own
/// where it holds one, else that of the nearest line before it that holds
/// one, else `carry`. Without a format no line has a timestamp.
pub open spec fn read_stamp_at(
    format: Option<TimestampFormat>,
    data: Seq<u8>,
    year: Seq<char>,
    offsets: Seq<u64>,
    carry: Option<i64>,
    i: int,
) -> Option<i64>
    decreases i + 1,
{
    if i < 0 || i >= offsets.len() {
        carry
    } else if format is None {
        None
    } else if line_stamp(format, data, offsets[i] as int, year) is Some {
        line_stamp(format, data, offsets[i] as int, year)
    } else {
        read_stamp_at(format, data, year, offsets, carry, i - 1)
    }
}

/// The timestamps of the lines that start at `offsets`, read one after
/// another, with `carry` handed on by the lines before them.
pub open spec fn read_stamps(
    format: Option<TimestampFormat>,
    data: Seq<u8>,
    year: Seq<char>,
    offsets: Seq<u64>,
    carry: Option<i64>,
) -> Seq<Option<i64>> {
    Seq::new(offsets.len(), |i: int| read_stamp_at(format, data, year, offsets, carry, i))
}

/// Which of the lines that start at `offsets` start an entry: those that
/// hold a timestamp of their own, and every line where there is no format.
pub open spec fn read_flags(
    format: Option<TimestampFormat>,
    data: Seq<u8>,
    year: Seq<char>,
    offsets: Seq<u64>,
) -> Seq<bool> {
    Seq::new(
        offsets.len(),
        |i: int| format is None || line_stamp(format, data, offsets[i] as int, year) is Some,
    )
}

/// The levels of the lines that start at `offsets`.
pub open spec fn read_levels(data: Seq<u8>, offsets: Seq<u64>) -> Seq<LogLevel> {
    Seq::new(offsets.len(), |i: int| line_level(data, offsets[i] as int))
}

/// The timestamp that a run of lines hands on to the lines after it: that
/// of its last line, or what was handed to it where it has no line or there
/// is no format.
pub open spec fn carried_on(
    format: Option<TimestampFormat>,
    carry: Option<i64>,
    timestamps: Seq<Option<i64>>,
) -> Option<i64> {
    if format is None || timestamps.len() == 0 {
        carry
    } else {
        timestamps.last()
    }
}

/// Whether the timestamps and entry flags are what stands in for lines
/// whose timestamps have not been read yet: no timestamp, each line an
/// entry of its own.
pub open spec fn is_unstamped(
    count: nat,
    timestamps: Seq<Option<i64>>,
    is_entry_start: Seq<bool>,
) -> bool {
    &&& timestamps.len() == count
    &&& is_entry_start.len() == count
    &&& forall|i: int| 0 <= i < count ==> #[trigger] timestamps[i] is None
    &&& forall|i: int| 0 <= i < count ==> #[trigger] is_entry_start[i]
}

/// What a chunk holds.
#[verifier::ext_equal]
pub struct IndexChunkView {
    pub line_offsets: Seq<u64>,
    pub timestamps: Seq<Option<i64>>,
    pub levels: Seq<LogLevel>,
    pub is_entry_start: Seq<bool>,
}

impl IndexChunkView {
    /// The chunk that holds the lines of this one and then those of
    /// `other`.
    pub open spec fn concat(self, other: IndexChunkView) -> IndexChunkView {
        IndexChunkView {
            line_offsets: self.line_offsets + other.line_offsets,
            timestamps: self.timestamps + other.timestamps,
            levels: self.levels + other.levels,
            is_entry_start: self.is_entry_start + other.is_entry_start,
        }
    }

    /// Whether the chunk has a timestamp, a level and an entry flag for each
    /// of its lines.
    pub open spec fn wf(self) -> bool {
        &&& self.timestamps.len() == self.line_offsets.len()
        &&& self.levels.len() == self.line_offsets.len()
        &&& self.is_entry_start.len() == self.line_offsets.len()
    }
}

impl View for IndexChunk {
    type V = IndexChunkView;

    open spec fn view(&self) -> IndexChunkView {
        IndexChunkView {
            line_offsets: self.line_offsets@,
            timestamps: self.timestamps@,
            levels: self.levels@,
            is_entry_start: self.is_entry_start@,
        }
    }
}

impl IndexChunk {
    /// Whether the chunk has a timestamp, a level and an entry flag for each
    /// of its lines.
    pub open spec fn wf(self) -> bool {
        self@.wf()
    }

    /// Whether the chunk is what indexing `data` from `start` gives, with
    /// at most `max_lines` lines, the level of each line read, timestamps
    /// read under `format` unless `skip_timestamps`, and `year` taken for
    /// the year of a syslog timestamp.
    pub open spec fn indexes(
        self,
        data: Seq<u8>,
        start: u64,
        max_lines: usize,
        format: Option<TimestampFormat>,
        skip_timestamps: bool,
        year: Seq<char>,
    ) -> bool {
        &&& is_chunk_offsets(data, start as int, max_lines, self.line_offsets@)
        &&& self.levels@ == read_levels(data, self.line_offsets@)
        &&& if skip_timestamps {
            is_unstamped(self.line_offsets@.len(), self.timestamps@, self.is_entry_start@)
        } else {
            &&& self.timestamps@ == read_stamps(format, data, year, self.line_offsets@, None)
            &&& self.is_entry_start@ == read_flags(format, data, year, self.line_offsets@)
        }
    }

    /// Whether the chunk has a timestamp, a level and an entry flag for each
    /// of its lines.
    pub fn is_consistent(&self) -> (ok: bool)
        ensures
            ok == self.wf(),
    {
        let n = self.line_offsets.len();
        self.timestamps.len() == n && self.levels.len() == n && self.is_entry_start.len() == n
    }
}

/// Finds the line starts of `data` from `start` on, at most `max_lines` of
/// them.
pub fn scan_line_starts(data: &[u8], start: u64, max_lines: usize) -> (offsets: Vec<u64>)
    ensures
        is_chunk_offsets(data@, start as int, max_lines, offsets@),
{
    let mut offsets: Vec<u64> = Vec::new();
    let len = data.len();
    if max_lines == 0 || start > len as u64 {
        return offsets;
    }
    let from = start as usize;
    if from == 0 || data[from - 1] == LF {
        offsets.push(start);
        proof {
            assert(offsets@[0] == from);
        }
    }
    let mut pos: usize = from;
    while offsets.len() < max_lines && pos < len
        invariant
            from <= pos <= len,
            len == data@.len(),
            from == start,
            0 < max_lines,
            offsets@.len() <= max_lines,
            forall|i: int|
                0 <= i < offsets@.len() ==> is_line_start(
                    data@,
                    from as int,
                    #[trigger] offsets@[i] as int,
                ),
            forall|i: int| 0 <= i < offsets@.len() ==> from <= #[trigger] offsets@[i] <= pos,
            forall|i: int, j: int| 0 <= i < j < offsets@.len() ==> offsets@[i] < offsets@[j],
            forall|p: int|
                from <= p <= pos && #[trigger] is_line_start(data@, from as int, p) ==> exists|
                    i: int,
                | 0 <= i < offsets@.len() && offsets@[i] == p,
        ensures
            from <= pos <= len,
            offsets@.len() <= max_lines,
            forall|i: int|
                0 <= i < offsets@.len() ==> is_line_start(
                    data@,
                    from as int,
                    #[trigger] offsets@[i] as int,
                ),
            forall|i: int, j: int| 0 <= i < j < offsets@.len() ==> offsets@[i] < offsets@[j],
            forall|p: int|
                from <= p <= chunk_reach(data@, max_lines, offsets@) && #[trigger] is_line_start(
                    data@,
                    from as int,
                    p,
                ) ==> exists|i: int| 0 <= i < offsets@.len() && offsets@[i] == p,
        decreases len - pos,
    {
        let at = find_in_range(data, LF, pos, len);
        proof {
            assert(data@.subrange(0, len as int) =~= data@);
            lemma_find_byte(data@, LF, pos as int);
        }
        if at >= len {
            proof {
                assert forall|p: int|
                    from <= p <= data@.len() && #[trigger] is_line_start(
                        data@,
                        from as int,
                        p,
                    ) implies exists|i: int| 0 <= i < offsets@.len() && offsets@[i] == p by {
                    if p > pos {
                        assert(data@[p - 1] != LF);
                    }
                }
            }
            pos = len;
            break ;
        }
        let ghost before = offsets@;
        if at + 1 < len {
            offsets.push((at + 1) as u64);
            proof {
                assert(is_line_start(data@, from as int, at + 1));
                assert forall|i: int, j: int| 0 <= i < j < offsets@.len() implies offsets@[i]
                    < offsets@[j] by {
                    if j == before.len() {
                        assert(before[i] <= pos);
                    }
                }
            }
        }
        proof {
            assert forall|p: int|
                from <= p <= at + 1 && #[trigger] is_line_start(
                    data@,
                    from as int,
                    p,
                ) implies exists|i: int| 0 <= i < offsets@.len() && offsets@[i] == p by {
                if p <= pos {
                    let i = choose|i: int| 0 <= i < before.len() && before[i] == p;
                    assert(offsets@[i] == p);
                } else if p <= at {
                    assert(data@[p - 1] != LF);
                } else {
                    assert(offsets@[before.len() as int] == p);
                }
            }
        }
        pos = at + 1;
    }
    offsets
}

/// The timestamps, levels and entry flags of a run of lines, with the
/// counts of their levels and the timestamp to carry into the next run.
pub struct DeferredParseResult {
    pub timestamps: Vec<Option<i64>>,
    pub levels: Vec<LogLevel>,
    pub is_entry_start: Vec<bool>,
    pub level_counts_delta: LevelCounts,
    pub last_parsed_ts: Option<i64>,
}

impl DeferredParseResult {
    /// Whether this is what reading the lines at `offsets` gives, with
    /// `carry` the timestamp handed on by the lines before them.
    pub open spec fn reads(
        self,
        data: Seq<u8>,
        offsets: Seq<u64>,
        format: Option<TimestampFormat>,
        carry: Option<i64>,
        year: Seq<char>,
    ) -> bool {
        &&& self.levels@ == read_levels(data, offsets)
        &&& self.timestamps@ == read_stamps(format, data, year, offsets, carry)
        &&& self.is_entry_start@ == read_flags(format, data, year, offsets)
        &&& self.level_counts_delta.tallies(self.levels@)
        &&& self.last_parsed_ts == carried_on(format, carry, self.timestamps@)
    }
}

/// Whether the year matters to a format: only a syslog timestamp is read
/// with a year put before it.
pub open spec fn needs_year(format: Option<TimestampFormat>) -> bool {
    format matches Some(f) && f.kind == TimestampKind::Syslog
}

/// Reads the timestamp and level of each line that starts at one of
/// `offsets`, carrying `last_ts` into the lines that hold no timestamp of
/// their own. `year` is taken for the year of a syslog timestamp.
pub fn parse_deferred_range_in_year(
    data: &[u8],
    offsets: &[u64],
    ts_format: &Option<TimestampFormat>,
    last_ts: Option<i64>,
    year: &str,
) -> (res: DeferredParseResult)
    ensures
        res.reads(data@, offsets@, *ts_format, last_ts, year@),
{
    let classifier = LevelClassifier::new();
    let mut timestamps: Vec<Option<i64>> = Vec::new();
    let mut levels: Vec<LogLevel> = Vec::new();
    let mut is_entry_start: Vec<bool> = Vec::new();
    let mut counts = LevelCounts::default();
    let mut carry = last_ts;
    let mut i: usize = 0;
    while i < offsets.len()
        invariant
            i <= offsets@.len(),
            levels@.len() == i,
            timestamps@.len() == i,
            is_entry_start@.len() == i,
            forall|k: int| 0 <= k < i ==> #[trigger] levels@[k] == line_level(data@, offsets@[k] as int),
            forall|k: int|
                0 <= k < i ==> #[trigger] timestamps@[k] == read_stamp_at(
                    *ts_format,
                    data@,
                    year@,
                    offsets@,
                    last_ts,
                    k,
                ),
            forall|k: int|
                0 <= k < i ==> #[trigger] is_entry_start@[k] == (*ts_format is None || line_stamp(
                    *ts_format,
                    data@,
                    offsets@[k] as int,
                    year@,
                ) is Some),
            counts.tallies(levels@),
            carry == carried_on(*ts_format, last_ts, timestamps@),
            *ts_format is Some ==> carry == read_stamp_at(
                *ts_format,
                data@,
                year@,
                offsets@,
                last_ts,
                i - 1,
            ),
        decreases offsets@.len() - i,
    {
        let text = line_probe(data, offsets[i]);
        let level = classifier.classify(text);
        proof {
            lemma_tally_push(counts, levels@, level);
        }
        counts.record(level);
        levels.push(level);
        match ts_format {
            Some(format) => {
                match format.parse_epoch_ms_in_year(text, year) {
                    Some(ms) => {
                        timestamps.push(Some(ms));
                        is_entry_start.push(true);
                        carry = Some(ms);
                    },
                    None => {
                        timestamps.push(carry);
                        is_entry_start.push(false);
                    },
                }
            },
            None => {
                timestamps.push(None);
                is_entry_start.push(true);
            },
        }
        i = i + 1;
    }
    proof {
        assert(levels@ =~= read_levels(data@, offsets@));
        assert(timestamps@ =~= read_stamps(*ts_format, data@, year@, offsets@, last_ts));
        assert(is_entry_start@ =~= read_flags(*ts_format, data@, year@, offsets@));
    }
    DeferredParseResult {
        timestamps,
        levels,
        is_entry_start,
        level_counts_delta: counts,
        last_parsed_ts: carry,
    }
}

/// Reads the timestamp and level of each line that starts at one of
/// `offsets`. A syslog timestamp names no year: the current year, read
/// from the clock, is taken for it.
pub fn parse_deferred_range(
    data: &[u8],
    offsets: &[u64],
    ts_format: &Option<TimestampFormat>,
    last_ts: Option<i64>,
) -> (res: DeferredParseResult)
    ensures
        exists|year: Seq<char>| res.reads(data@, offsets@, *ts_format, last_ts, year),
        !needs_year(*ts_format) ==> res.reads(data@, offsets@, *ts_format, last_ts, Seq::empty()),
{
    let syslog = match ts_format {
        Some(format) => format.kind == TimestampKind::Syslog,
        None => false,
    };
    if syslog {
        let year = current_year();
        parse_deferred_range_in_year(data, offsets, ts_format, last_ts, year.as_str())
    } else {
        proof {
            reveal_strlit("");
            assert(""@ =~= Seq::<char>::empty());
        }
        parse_deferred_range_in_year(data, offsets, ts_format, last_ts, "")
    }
}

/// Indexes `data` from `start_byte` on: finds at most `max_lines` line
/// starts, reads the level of each of these lines and, unless
/// `skip_timestamps`, its timestamp. `usize::MAX` for `max_lines` indexes
/// to the end of the data. `year` is taken for the year of a syslog
/// timestamp.
pub fn build_index_chunk_in_year(
    data: &[u8],
    start_byte: u64,
    max_lines: usize,
    ts_format: &Option<TimestampFormat>,
    skip_timestamps: bool,
    year: &str,
) -> (chunk: IndexChunk)
    ensures
        chunk.wf(),
        chunk.indexes(data@, start_byte, max_lines, *ts_format, skip_timestamps, year@),
{
    let line_offsets = scan_line_starts(data, start_byte, max_lines);
    if skip_timestamps {
        let parsed = parse_deferred_range_in_year(data, line_offsets.as_slice(), &None, None, year);
        IndexChunk {
            line_offsets,
            timestamps: parsed.timestamps,
            levels: parsed.levels,
            is_entry_start: parsed.is_entry_start,
        }
    } else {
        let parsed = parse_deferred_range_in_year(
            data,
            line_offsets.as_slice(),
            ts_format,
            None,
            year,
        );
        IndexChunk {
            line_offsets,
            timestamps: parsed.timestamps,
            levels: parsed.levels,
            is_entry_start: parsed.is_entry_start,
        }
    }
}

/// Indexes `data` from `start_byte` on: finds at most `max_lines` line
/// starts, reads the level of each of these lines and, unless
/// `skip_timestamps`, its timestamp. A line without a timestamp of its own
/// has that of the line before it in the chunk. `usize::MAX` for `max_lines` indexes to
/// the end of the data.
pub fn build_index_chunk(
    data: &[u8],
    start_byte: u64,
    max_lines: usize,
    ts_format: &Option<TimestampFormat>,
    skip_timestamps: bool,
) -> (chunk: IndexChunk)
    ensures
        chunk.wf(),
        exists|year: Seq<char>|
            chunk.indexes(data@, start_byte, max_lines, *ts_format, skip_timestamps, year),
        !needs_year(*ts_format) ==> chunk.indexes(
            data@,
            start_byte,
            max_lines,
            *ts_format,
            skip_timestamps,
            Seq::empty(),
        ),
{
    let syslog = match ts_format {
        Some(format) => format.kind == TimestampKind::Syslog,
        None => false,
    };
    if syslog && !skip_timestamps {
        let year = current_year();
        let chunk = build_index_chunk_in_year(
            data,
            start_byte,
            max_lines,
            ts_format,
            skip_timestamps,
            year.as_str(),
        );
        proof {
            assert(chunk.indexes(data@, start_byte, max_lines, *ts_format, skip_timestamps, year@));
        }
        chunk
    } else {
        proof {
            reveal_strlit("");
            assert(""@ =~= Seq::<char>::empty());
        }
        build_index_chunk_in_year(data, start_byte, max_lines, ts_format, skip_timestamps, "")
    }
}

/// What an index holds.
#[verifier::ext_equal]
pub struct LogIndexView {
    pub line_offsets: Seq<u64>,
    pub timestamps: Seq<Option<i64>>,
    pub levels: Seq<LogLevel>,
    pub is_entry_start: Seq<bool>,
    pub timestamp_format: Option<TimestampFormat>,
    pub level_counts: LevelCounts,
    pub timestamps_ready: bool,
    pub levels_ready: bool,
    pub parse_cursor: nat,
    pub last_parsed_ts: Option<i64>,
}

/// The timestamp of the line before line `i`; `None` for the first line.
pub open spec fn stamp_before(timestamps: Seq<Option<i64>>, i: int) -> Option<i64> {
    if i <= 0 {
        None
    } else {
        timestamps[i - 1]
    }
}

/// The levels after a run of read levels has been put over them from
/// `start` on: a line of unknown level takes the level read for it, any
/// other line keeps its level.
pub open spec fn levels_filled(levels: Seq<LogLevel>, start: int, read: Seq<LogLevel>) -> Seq<
    LogLevel,
> {
    Seq::new(
        levels.len(),
        |i: int|
            if start <= i < start + read.len() && levels[i] == LogLevel::Unknown {
                read[i - start]
            } else {
                levels[i]
            },
    )
}

/// Values with a run of new values put over them from `start` on.
pub open spec fn overlaid<T>(values: Seq<T>, start: int, run: Seq<T>) -> Seq<T> {
    Seq::new(
        values.len(),
        |i: int|
            if start <= i < start + run.len() {
                run[i - start]
            } else {
                values[i]
            },
    )
}

/// The counts of the levels of the given lines.
pub open spec fn tally(levels: Seq<LogLevel>) -> LevelCounts {
    LevelCounts {
        error: count_level(levels, LogLevel::Error) as usize,
        warn: count_level(levels, LogLevel::Warn) as usize,
        info: count_level(levels, LogLevel::Info) as usize,
        debug: count_level(levels, LogLevel::Debug) as usize,
        trace: count_level(levels, LogLevel::Trace) as usize,
    }
}

impl LogIndexView {
    /// The index of no lines.
    pub open spec fn empty(timestamp_format: Option<TimestampFormat>) -> LogIndexView {
        LogIndexView {
            line_offsets: Seq::empty(),
            timestamps: Seq::empty(),
            levels: Seq::empty(),
            is_entry_start: Seq::empty(),
            timestamp_format,
            level_counts: LevelCounts::default_counts(),
            timestamps_ready: false,
            levels_ready: false,
            parse_cursor: 0,
            last_parsed_ts: None,
        }
    }

    /// How many lines the index holds.
    pub open spec fn total_lines(self) -> nat {
        self.line_offsets.len()
    }

    /// Whether the metadata of every line has been read.
    pub open spec fn ready(self) -> bool {
        self.timestamps_ready && self.levels_ready
    }

    /// The invariant of an index: there is a timestamp, a level and an
    /// entry flag for each line; the level counts are those of a recount
    /// over all lines; the metadata is ready only when every line has been
    /// read; and among the lines read so far a line that starts no entry
    /// has the timestamp of the line before it, so that it has the
    /// timestamp of the nearest line before it that starts an entry.
    pub open spec fn wf(self) -> bool {
        &&& self.timestamps.len() == self.line_offsets.len()
        &&& self.levels.len() == self.line_offsets.len()
        &&& self.is_entry_start.len() == self.line_offsets.len()
        &&& self.line_offsets.len() <= usize::MAX
        &&& self.level_counts.tallies(self.levels)
        &&& self.parse_cursor <= self.line_offsets.len()
        &&& self.timestamps_ready == self.levels_ready
        &&& self.timestamps_ready ==> self.parse_cursor == self.line_offsets.len()
        &&& match self.timestamp_format {
            Some(_) => {
                &&& self.last_parsed_ts == stamp_before(self.timestamps, self.parse_cursor as int)
                &&& forall|i: int|
                    0 <= i < self.parse_cursor && !#[trigger] self.is_entry_start[i]
                        ==> self.timestamps[i] == stamp_before(self.timestamps, i)
            },
            None => self.last_parsed_ts is None,
        }
    }

    /// The index with the lines of a chunk added after its own.
    pub open spec fn merged(self, chunk: IndexChunkView) -> LogIndexView {
        let behind = self.parse_cursor < self.line_offsets.len() + chunk.line_offsets.len();
        LogIndexView {
            line_offsets: self.line_offsets + chunk.line_offsets,
            timestamps: self.timestamps + chunk.timestamps,
            levels: self.levels + chunk.levels,
            is_entry_start: self.is_entry_start + chunk.is_entry_start,
            level_counts: tally(self.levels + chunk.levels),
            timestamps_ready: self.timestamps_ready && !behind,
            levels_ready: self.levels_ready && !behind,
            ..self
        }
    }

    /// Whether a run of read metadata can be put into the index at
    /// `start_index`: it starts where reading stands, covers lines that the
    /// index holds, and, where the index has a timestamp format, each of
    /// its lines that starts no entry has the timestamp of the line before
    /// it.
    pub open spec fn accepts(
        self,
        start_index: int,
        timestamps: Seq<Option<i64>>,
        levels: Seq<LogLevel>,
        is_entry_start: Seq<bool>,
    ) -> bool {
        &&& start_index == self.parse_cursor
        &&& levels.len() == timestamps.len()
        &&& is_entry_start.len() == timestamps.len()
        &&& start_index + timestamps.len() <= self.line_offsets.len()
        &&& self.timestamp_format is Some ==> forall|i: int|
            0 <= i < timestamps.len() && !#[trigger] is_entry_start[i] ==> timestamps[i] == if i
                == 0 {
                self.last_parsed_ts
            } else {
                timestamps[i - 1]
            }
    }

    /// The index after a run of read metadata has been put into it where
    /// reading stands. Timestamps and entry flags are taken over as they
    /// are, unless the index has no timestamp format; a level is taken over
    /// where the line's level was unknown.
    pub open spec fn applied(
        self,
        timestamps: Seq<Option<i64>>,
        levels: Seq<LogLevel>,
        is_entry_start: Seq<bool>,
    ) -> LogIndexView {
        let start = self.parse_cursor as int;
        let end = start + timestamps.len();
        let new_levels = levels_filled(self.levels, start, levels);
        LogIndexView {
            timestamps: if self.timestamp_format is Some {
                overlaid(self.timestamps, start, timestamps)
            } else {
                self.timestamps
            },
            is_entry_start: if self.timestamp_format is Some {
                overlaid(self.is_entry_start, start, is_entry_start)
            } else {
                self.is_entry_start
            },
            levels: new_levels,
            level_counts: tally(new_levels),
            parse_cursor: end as nat,
            last_parsed_ts: carried_on(self.timestamp_format, self.last_parsed_ts, timestamps),
            timestamps_ready: end >= self.line_offsets.len(),
            levels_ready: end >= self.line_offsets.len(),
            ..self
        }
    }

    /// The line after which reading stops in a batch of `batch_size` lines.
    pub open spec fn batch_end(self, batch_size: usize) -> int {
        if self.parse_cursor + batch_size < self.line_offsets.len() {
            self.parse_cursor + batch_size
        } else {
            self.line_offsets.len() as int
        }
    }

    /// The index after the metadata of the next `batch_size` lines has been
    /// read from `data`. Nothing changes where the metadata is ready.
    pub open spec fn parsed(self, data: Seq<u8>, batch_size: usize, year: Seq<char>) -> LogIndexView {
        if self.ready() {
            self
        } else {
            let offsets = self.line_offsets.subrange(
                self.parse_cursor as int,
                self.batch_end(batch_size),
            );
            self.applied(
                read_stamps(self.timestamp_format, data, year, offsets, self.last_parsed_ts),
                read_levels(data, offsets),
                read_flags(self.timestamp_format, data, year, offsets),
            )
        }
    }
}

/// The progressive index of a log file.
pub struct LogIndex {
    line_offsets: Vec<u64>,
    timestamps: Vec<Option<i64>>,
    levels: Vec<LogLevel>,
    is_entry_start: Vec<bool>,
    timestamp_format: Option<TimestampFormat>,
    level_counts: LevelCounts,
    timestamps_ready: bool,
    levels_ready: bool,
    ts_parse_cursor: usize,
    last_parsed_ts: Option<i64>,
}

impl View for LogIndex {
    type V = LogIndexView;

    closed spec fn view(&self) -> LogIndexView {
        LogIndexView {
            line_offsets: self.line_offsets@,
            timestamps: self.timestamps@,
            levels: self.levels@,
            is_entry_start: self.is_entry_start@,
            timestamp_format: self.timestamp_format,
            level_counts: self.level_counts,
            timestamps_ready: self.timestamps_ready,
            levels_ready: self.levels_ready,
            parse_cursor: self.ts_parse_cursor as nat,
            last_parsed_ts: self.last_parsed_ts,
        }
    }
}

/// The read metadata of a run fits the index that it was read for.
proof fn lemma_read_run_fits(
    index: LogIndexView,
    data: Seq<u8>,
    year: Seq<char>,
    end: int,
)
    requires
        index.wf(),
        index.parse_cursor <= end <= index.line_offsets.len(),
    ensures
        ({
            let offsets = index.line_offsets.subrange(index.parse_cursor as int, end);
            index.accepts(
                index.parse_cursor as int,
                read_stamps(index.timestamp_format, data, year, offsets, index.last_parsed_ts),
                read_levels(data, offsets),
                read_flags(index.timestamp_format, data, year, offsets),
            )
        }),
{
    let offsets = index.line_offsets.subrange(index.parse_cursor as int, end);
    let format = index.timestamp_format;
    let stamps = read_stamps(format, data, year, offsets, index.last_parsed_ts);
    let flags = read_flags(format, data, year, offsets);
    if format is Some {
        assert forall|i: int| 0 <= i < stamps.len() && !#[trigger] flags[i] implies stamps[i] == if i
            == 0 {
            index.last_parsed_ts
        } else {
            stamps[i - 1]
        } by {
            assert(stamps[i] == read_stamp_at(format, data, year, offsets, index.last_parsed_ts, i));
            assert(read_stamp_at(format, data, year, offsets, index.last_parsed_ts, i)
                == read_stamp_at(format, data, year, offsets, index.last_parsed_ts, i - 1));
        }
    }
}

/// Putting an accepted run of metadata into an index keeps its invariant.
proof fn lemma_applied_wf(
    index: LogIndexView,
    timestamps: Seq<Option<i64>>,
    levels: Seq<LogLevel>,
    is_entry_start: Seq<bool>,
)
    requires
        index.wf(),
        index.accepts(index.parse_cursor as int, timestamps, levels, is_entry_start),
        tally(levels_filled(index.levels, index.parse_cursor as int, levels)).tallies(
            levels_filled(index.levels, index.parse_cursor as int, levels),
        ),
    ensures
        index.applied(timestamps, levels, is_entry_start).wf(),
{
    let after = index.applied(timestamps, levels, is_entry_start);
    let start = index.parse_cursor as int;
    if index.timestamp_format is Some {
        assert forall|i: int|
            0 <= i < after.parse_cursor && !#[trigger] after.is_entry_start[i] implies after.timestamps[i]
            == stamp_before(after.timestamps, i) by {
            if i < start {
                assert(!index.is_entry_start[i]);
            } else {
                assert(!is_entry_start[i - start]);
            }
        }
    }
}

/// Counts that are those of the lines are the tally of the lines.
proof fn lemma_tallies_is_tally(counts: LevelCounts, levels: Seq<LogLevel>)
    requires
        counts.tallies(levels),
    ensures
        counts == tally(levels),
{
}

impl LogIndex {
    /// Whether the index keeps its invariant.
    pub open spec fn wf(&self) -> bool {
        self@.wf()
    }

    /// An index of no lines, for a file without a timestamp format.
    pub fn new() -> (index: Self)
        ensures
            index.wf(),
            index@ == LogIndexView::empty(None),
    {
        LogIndex::with_format(None)
    }

    /// An index of no lines, for a file whose timestamps have the given
    /// format.
    pub fn with_format(timestamp_format: Option<TimestampFormat>) -> (index: Self)
        ensures
            index.wf(),
            index@ == LogIndexView::empty(timestamp_format),
    {
        let index = LogIndex {
            line_offsets: Vec::new(),
            timestamps: Vec::new(),
            levels: Vec::new(),
            is_entry_start: Vec::new(),
            timestamp_format,
            level_counts: LevelCounts::default(),
            timestamps_ready: false,
            levels_ready: false,
            ts_parse_cursor: 0,
            last_parsed_ts: None,
        };
        proof {
            assert(index@ =~= LogIndexView::empty(timestamp_format));
        }
        index
    }

    /// Where each line starts.
    pub fn line_offsets(&self) -> (res: &Vec<u64>)
        ensures
            res@ == self@.line_offsets,
    {
        &self.line_offsets
    }

    /// The timestamp of each line, in milliseconds since the start of 1970.
    pub fn timestamps(&self) -> (res: &Vec<Option<i64>>)
        ensures
            res@ == self@.timestamps,
    {
        &self.timestamps
    }

    /// The level of each line.
    pub fn levels(&self) -> (res: &Vec<LogLevel>)
        ensures
            res@ == self@.levels,
    {
        &self.levels
    }

    /// Whether each line starts an entry.
    pub fn is_entry_start(&self) -> (res: &Vec<bool>)
        ensures
            res@ == self@.is_entry_start,
    {
        &self.is_entry_start
    }

    /// The timestamp format of the file, if it has one.
    pub fn timestamp_format(&self) -> (res: &Option<TimestampFormat>)
        ensures
            *res == self@.timestamp_format,
    {
        &self.timestamp_format
    }

    /// How many lines the index holds.
    pub fn total_lines(&self) -> (res: usize)
        ensures
            res == self@.total_lines(),
    {
        self.line_offsets.len()
    }

    /// How many lines there are of each level.
    pub fn level_counts(&self) -> (res: &LevelCounts)
        ensures
            *res == self@.level_counts,
    {
        &self.level_counts
    }

    /// Whether the timestamp of every line has been read.
    pub fn timestamps_ready(&self) -> (res: bool)
        ensures
            res == self@.timestamps_ready,
    {
        self.timestamps_ready
    }

    /// Whether the level of every line has been read.
    pub fn levels_ready(&self) -> (res: bool)
        ensures
            res == self@.levels_ready,
    {
        self.levels_ready
    }

    /// The first line whose metadata has not been read.
    pub fn parse_cursor(&self) -> (res: usize)
        ensures
            res == self@.parse_cursor,
    {
        self.ts_parse_cursor
    }

    /// The timestamp that the lines read so far hand on to the next line.
    pub fn last_parsed_ts(&self) -> (res: Option<i64>)
        ensures
            res == self@.last_parsed_ts,
    {
        self.last_parsed_ts
    }

    /// Adds the lines of a chunk after those that the index holds, and
    /// their levels to the level counts. The metadata is not ready any more
    /// where lines are left to read.
    pub fn merge_chunk(&mut self, chunk: IndexChunk)
        requires
            old(self).wf(),
            chunk.wf(),
        ensures
            final(self).wf(),
            final(self)@ == old(self)@.merged(chunk@),
    {
        let n = chunk.line_offsets.len();
        let ghost before = self@;
        let mut i: usize = 0;
        while i < n
            invariant
                i <= n,
                n == chunk.line_offsets@.len(),
                chunk.wf(),
                before.wf(),
                self.line_offsets@ == before.line_offsets + chunk.line_offsets@.take(i as int),
                self.timestamps@ == before.timestamps + chunk.timestamps@.take(i as int),
                self.levels@ == before.levels + chunk.levels@.take(i as int),
                self.is_entry_start@ == before.is_entry_start + chunk.is_entry_start@.take(i as int),
                self.level_counts.tallies(self.levels@),
                self.timestamp_format == before.timestamp_format,
                self.timestamps_ready == before.timestamps_ready,
                self.levels_ready == before.levels_ready,
                self.ts_parse_cursor == before.parse_cursor,
                self.last_parsed_ts == before.last_parsed_ts,
            decreases n - i,
        {
            let level = chunk.levels[i];
            let ghost old_levels = self.levels@;
            self.levels.push(level);
            proof {
                assert(self.levels@.len() == self.levels.len());
                lemma_tally_push(self.level_counts, old_levels, level);
                assert(chunk.line_offsets@.take(i + 1) =~= chunk.line_offsets@.take(i as int).push(
                    chunk.line_offsets@[i as int],
                ));
                assert(chunk.timestamps@.take(i + 1) =~= chunk.timestamps@.take(i as int).push(
                    chunk.timestamps@[i as int],
                ));
                assert(chunk.levels@.take(i + 1) =~= chunk.levels@.take(i as int).push(
                    chunk.levels@[i as int],
                ));
                assert(chunk.is_entry_start@.take(i + 1) =~= chunk.is_entry_start@.take(
                    i as int,
                ).push(chunk.is_entry_start@[i as int]));
            }
            self.level_counts.record(level);
            self.line_offsets.push(chunk.line_offsets[i]);
            self.timestamps.push(chunk.timestamps[i]);
            self.is_entry_start.push(chunk.is_entry_start[i]);
            proof {
                assert(self.line_offsets@ =~= before.line_offsets + chunk.line_offsets@.take(i + 1));
                assert(self.timestamps@ =~= before.timestamps + chunk.timestamps@.take(i + 1));
                assert(self.levels@ =~= before.levels + chunk.levels@.take(i + 1));
                assert(self.is_entry_start@ =~= before.is_entry_start
                    + chunk.is_entry_start@.take(i + 1));
            }
            i = i + 1;
        }
        proof {
            assert(chunk.line_offsets@.take(n as int) =~= chunk.line_offsets@);
            assert(chunk.timestamps@.take(n as int) =~= chunk.timestamps@);
            assert(chunk.levels@.take(n as int) =~= chunk.levels@);
            assert(chunk.is_entry_start@.take(n as int) =~= chunk.is_entry_start@);
            lemma_tallies_is_tally(self.level_counts, self.levels@);
        }
        if self.ts_parse_cursor < self.line_offsets.len() {
            self.timestamps_ready = false;
            self.levels_ready = false;
        }
    }

    /// Puts a run of read metadata into the index at `start_index`, where
    /// the index accepts it, and moves on to the line after the run. The
    /// index is unchanged and `false` is returned where it does not.
    pub fn apply_deferred_batch(
        &mut self,
        start_index: usize,
        timestamps: Vec<Option<i64>>,
        levels: Vec<LogLevel>,
        is_entry_start: Vec<bool>,
    ) -> (done: bool)
        requires
            old(self).wf(),
        ensures
            final(self).wf(),
            done == old(self)@.accepts(start_index as int, timestamps@, levels@, is_entry_start@),
            done ==> final(self)@ == old(self)@.applied(timestamps@, levels@, is_entry_start@),
            !done ==> final(self)@ == old(self)@,
    {
        let n = timestamps.len();
        let total = self.line_offsets.len();
        if start_index != self.ts_parse_cursor || levels.len() != n || is_entry_start.len() != n
            || n > total - start_index {
            return false;
        }
        let has_format = self.timestamp_format.is_some();
        let ghost before = self@;
        if has_format {
            let mut k: usize = 0;
            let mut earlier = self.last_parsed_ts;
            while k < n
                invariant
                    k <= n,
                    n == timestamps@.len(),
                    n == is_entry_start@.len(),
                    self@ == before,
                    before.wf(),
                    before.timestamp_format is Some,
                    earlier == if k == 0 {
                        before.last_parsed_ts
                    } else {
                        timestamps@[k - 1]
                    },
                    forall|i: int|
                        0 <= i < k && !#[trigger] is_entry_start@[i] ==> timestamps@[i] == if i == 0 {
                            before.last_parsed_ts
                        } else {
                            timestamps@[i - 1]
                        },
                decreases n - k,
            {
                if !is_entry_start[k] && !same_stamp(timestamps[k], earlier) {
                    proof {
                        assert(!is_entry_start@[k as int]);
                    }
                    return false;
                }
                earlier = timestamps[k];
                k = k + 1;
            }
        }
        let ghost goal = before.applied(timestamps@, levels@, is_entry_start@);
        let mut i: usize = 0;
        while i < n
            invariant
                i <= n,
                n == timestamps@.len(),
                n == levels@.len(),
                n == is_entry_start@.len(),
                start_index == before.parse_cursor,
                start_index + n <= before.line_offsets.len(),
                before.wf(),
                has_format == before.timestamp_format is Some,
                self.line_offsets@ == before.line_offsets,
                self.timestamp_format == before.timestamp_format,
                self.timestamps_ready == before.timestamps_ready,
                self.levels_ready == before.levels_ready,
                self.ts_parse_cursor == before.parse_cursor,
                self.last_parsed_ts == before.last_parsed_ts,
                self.levels@ == levels_filled(before.levels, start_index as int, levels@.take(i as int)),
                has_format ==> self.timestamps@ == overlaid(
                    before.timestamps,
                    start_index as int,
                    timestamps@.take(i as int),
                ),
                has_format ==> self.is_entry_start@ == overlaid(
                    before.is_entry_start,
                    start_index as int,
                    is_entry_start@.take(i as int),
                ),
                !has_format ==> self.timestamps@ == before.timestamps,
                !has_format ==> self.is_entry_start@ == before.is_entry_start,
                self.level_counts.tallies(self.levels@),
            decreases n - i,
        {
            let at = start_index + i;
            let ghost old_levels = self.levels@;
            if has_format {
                self.timestamps.set(at, timestamps[i]);
                self.is_entry_start.set(at, is_entry_start[i]);
                proof {
                    assert(self.timestamps@ =~= overlaid(
                        before.timestamps,
                        start_index as int,
                        timestamps@.take(i + 1),
                    ));
                    assert(self.is_entry_start@ =~= overlaid(
                        before.is_entry_start,
                        start_index as int,
                        is_entry_start@.take(i + 1),
                    ));
                }
            }
            if self.levels[at] == LogLevel::Unknown {
                let level = levels[i];
                proof {
                    lemma_tally_fill(self.level_counts, self.levels@, at as int, level);
                }
                self.level_counts.record(level);
                self.levels.set(at, level);
            }
            proof {
                assert(self.levels@ =~= levels_filled(
                    before.levels,
                    start_index as int,
                    levels@.take(i + 1),
                ));
            }
            i = i + 1;
        }
        proof {
            assert(timestamps@.take(n as int) =~= timestamps@);
            assert(levels@.take(n as int) =~= levels@);
            assert(is_entry_start@.take(n as int) =~= is_entry_start@);
            lemma_tallies_is_tally(self.level_counts, self.levels@);
            lemma_applied_wf(before, timestamps@, levels@, is_entry_start@);
        }
        if has_format && n > 0 {
            self.last_parsed_ts = timestamps[n - 1];
        }
        self.ts_parse_cursor = start_index + n;
        let ready = self.ts_parse_cursor >= total;
        self.timestamps_ready = ready;
        self.levels_ready = ready;
        proof {
            assert(self@ =~= goal);
        }
        true
    }

    /// Reads the metadata of the next `batch_size` lines from `data`, with
    /// `year` taken for the year of a syslog timestamp, and returns whether
    /// lines are left to read.
    pub fn parse_deferred_batch_in_year(&mut self, data: &[u8], batch_size: usize, year: &str) -> (more:
        bool)
        requires
            old(self).wf(),
        ensures
            final(self).wf(),
            final(self)@ == old(self)@.parsed(data@, batch_size, year@),
            more == !final(self)@.ready(),
    {
        if self.timestamps_ready && self.levels_ready {
            return false;
        }
        let start = self.ts_parse_cursor;
        let total = self.line_offsets.len();
        let end = if batch_size < total - start {
            start + batch_size
        } else {
            total
        };
        proof {
            lemma_read_run_fits(self@, data@, year@, end as int);
        }
        let parsed = parse_deferred_range_in_year(
            data,
            slice_subrange(self.line_offsets.as_slice(), start, end),
            &self.timestamp_format,
            self.last_parsed_ts,
            year,
        );
        let done = self.apply_deferred_batch(
            start,
            parsed.timestamps,
            parsed.levels,
            parsed.is_entry_start,
        );
        assert(done);
        !(self.timestamps_ready && self.levels_ready)
    }

    /// Reads the metadata of the next `batch_size` lines from `data` and
    /// returns whether lines are left to read. A syslog timestamp names no
    /// year: the current year, read from the clock, is taken for it.
    pub fn parse_deferred_batch(&mut self, data: &[u8], batch_size: usize) -> (more: bool)
        requires
            old(self).wf(),
        ensures
            final(self).wf(),
            exists|year: Seq<char>| final(self)@ == old(self)@.parsed(data@, batch_size, year),
            !needs_year(old(self)@.timestamp_format) ==> final(self)@ == old(self)@.parsed(
                data@,
                batch_size,
                Seq::empty(),
            ),
            more == !final(self)@.ready(),
    {
        let syslog = match &self.timestamp_format {
            Some(format) => format.kind == TimestampKind::Syslog,
            None => false,
        };
        if syslog {
            let year = current_year();
            let ghost before = self@;
            let more = self.parse_deferred_batch_in_year(data, batch_size, year.as_str());
            proof {
                assert(self@ == before.parsed(data@, batch_size, year@));
            }
            more
        } else {
            proof {
                reveal_strlit("");
                assert(""@ =~= Seq::<char>::empty());
            }
            self.parse_deferred_batch_in_year(data, batch_size, "")
        }
    }
}

/// Whether two timestamps are the same.
fn same_stamp(a: Option<i64>, b: Option<i64>) -> (same: bool)
    ensures
        same == (a == b),
{
    match (a, b) {
        (Some(x), Some(y)) => x == y,
        (None, None) => true,
        _ => false,
    }
}

/// The most lines that the timestamp format is detected from.
pub const SAMPLE_LINES: usize = 20;

/// The sample that the timestamp format is detected from: of the lines
/// from `line_start` on, the first `wanted` whose first `PROBE_BYTES`
/// bytes are valid UTF-8, each cut to these bytes.
pub open spec fn sample_lines(data: Seq<u8>, line_start: int, wanted: nat) -> Seq<Seq<char>>
    decreases data.len() - line_start,
{
    if wanted == 0 || line_start < 0 || line_start >= data.len() {
        Seq::empty()
    } else {
        let next = find_byte(data, LF, line_start) + 1;
        let rest = if line_start < next <= data.len() {
            next
        } else {
            data.len() as int
        };
        if valid_utf8(probe_bytes(data, line_start)) {
            seq![decode_utf8(probe_bytes(data, line_start))] + sample_lines(
                data,
                rest,
                (wanted - 1) as nat,
            )
        } else {
            sample_lines(data, rest, wanted)
        }
    }
}

/// Detects the timestamp format of a file from the first lines of its
/// data.
pub fn detect_timestamp_format(data: &[u8]) -> (res: Option<TimestampFormat>)
    ensures
        is_detected(sample_lines(data@, 0, SAMPLE_LINES as nat), res),
{
    broadcast use vstd::utf8::encode_utf8_decode_utf8;

    let len = data.len();
    let mut samples: Vec<&str> = Vec::new();
    let mut line_start: usize = 0;
    while line_start < len && samples.len() < SAMPLE_LINES
        invariant
            line_start <= len,
            len == data@.len(),
            samples@.len() <= SAMPLE_LINES,
            sample_lines(data@, 0, SAMPLE_LINES as nat) == texts_of(samples@) + sample_lines(
                data@,
                line_start as int,
                (SAMPLE_LINES - samples@.len()) as nat,
            ),
        decreases len - line_start,
    {
        let stop = find_in_range(data, LF, line_start, len);
        let limit = if len - line_start > PROBE_BYTES {
            line_start + PROBE_BYTES
        } else {
            len
        };
        let end = find_in_range(data, LF, line_start, limit);
        let ghost before = texts_of(samples@);
        let ghost wanted = (SAMPLE_LINES - samples@.len()) as nat;
        let ghost rest = if stop < len {
            stop + 1
        } else {
            len as int
        };
        let window = slice_subrange(data, line_start, end);
        proof {
            assert(data@.subrange(0, len as int) =~= data@);
            lemma_find_byte(data@, LF, line_start as int);
            assert(window@ == probe_bytes(data@, line_start as int));
        }
        match decode_text(window) {
            Some(text) => {
                samples.push(text);
                proof {
                    vstd::utf8::encode_utf8_decode_utf8(text@);
                    assert(text.spec_bytes() == window@);
                    assert(text@ == decode_utf8(window@));
                    assert(texts_of(samples@) =~= before + seq![text@]);
                    assert(sample_lines(data@, line_start as int, wanted) == seq![text@]
                        + sample_lines(data@, rest, (wanted - 1) as nat));
                    assert(before + (seq![text@] + sample_lines(data@, rest, (wanted - 1) as nat))
                        =~= texts_of(samples@) + sample_lines(data@, rest, (wanted - 1) as nat));
                }
            },
            None => {
                proof {
                    assert(sample_lines(data@, line_start as int, wanted) == sample_lines(
                        data@,
                        rest,
                        wanted,
                    ));
                }
            },
        }
        line_start = if stop < len {
            stop + 1
        } else {
            len
        };
    }
    proof {
        assert(sample_lines(data@, 0, SAMPLE_LINES as nat) =~= texts_of(samples@));
    }
    TimestampFormat::detect(samples.as_slice())
}

} // verus!
