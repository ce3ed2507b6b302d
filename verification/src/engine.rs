//! The engine: what is on view, the search and the filter that are under
//! way, and, once per tick, the one unit of work that is done next.

use crate::cancel::{new_flag, request_stop};
use crate::filter::{condition_pairs, is_parsed, pairs_of, parse_filter, FilterCondition};
use crate::log::index::IndexChunk;
use crate::log::parser::LogLevel;
use crate::log::reader::{LogSource, SCAN_BATCH_LINES};
use crate::mapped::share;
use crate::matching::{
    batch_stop, filter_lines, lemma_passing_split, line_passes, matching_lines_in, passing,
    passing_lines_in,
};
use crate::search::{literal_pattern, nearest, SearchState};
use crate::worker::{Generation, WorkRequest, WorkResult};
use regex::Regex;
use std::sync::atomic::AtomicBool;
use std::sync::Arc;
use vstd::prelude::*;
use vstd::slice::{slice_subrange, slice_to_vec};

verus! {

/// How many lines one step of work covers when it is done at once, between
/// two looks at the input.
pub const SYNC_BATCH_LINES: usize = 10_000;

/// How many lines one request to the background worker covers.
pub const WORKER_BATCH_LINES: usize = 50_000;

/// How many lines the view shows before it has been laid out.
pub const DEFAULT_VIEWPORT: usize = 20;

/// How many lines more than the view shows are read for the tail view.
pub const TAIL_MARGIN: usize = 20;

/// The last lines of a file that is still being scanned, shown in place of
/// the indexed lines.
pub struct TailView {
    pub lines: Vec<String>,
    pub levels: Vec<LogLevel>,
}

/// What there is to say on the status line.
pub enum StatusNote {
    Searching,
    SearchProgress { percent: usize, matches: usize },
    SearchDone { matches: usize },
    Filtering,
    FilterProgress { percent: usize, matches: usize },
    FilterDone { lines: usize },
    FilterCleared,
    NoActiveFilter,
    InvalidPattern { message: String },
    FollowOff,
    SemanticColor { on: bool },
    LineWrap { on: bool },
    TimeDeltas { on: bool },
    TimeUsage,
    GoUsage,
    JumpedToLine { number: usize },
    JumpedToBookmark { label: String },
    NoSuchBookmark { name: String },
    BookmarkNameIsNumber,
    BookmarkRemoved { number: usize },
    Bookmarked { label: String },
    NoBookmarks,
    NotifyAdded { pattern: String },
    NoNotifications,
    NotificationRemoved { pattern: String },
    Theme,
    UnknownCommand { name: String },
    NoTimestamps,
    CannotParseTime { input: String },
    JumpedToTime { input: String },
    OffsetNeedsUnit,
    InvalidOffset { input: String },
    JumpedBy { input: String },
    CopiedChars { count: usize },
    CopiedLines { count: usize },
    SettingsSaved,
}

impl StatusNote {
    /// Whether the note tells of something that went wrong.
    pub open spec fn tells_error(self) -> bool {
        match self {
            StatusNote::InvalidPattern { .. } => true,
            StatusNote::TimeUsage => true,
            StatusNote::GoUsage => true,
            StatusNote::NoSuchBookmark { .. } => true,
            StatusNote::BookmarkNameIsNumber => true,
            StatusNote::NoBookmarks => true,
            StatusNote::NoNotifications => true,
            StatusNote::UnknownCommand { .. } => true,
            StatusNote::NoTimestamps => true,
            StatusNote::CannotParseTime { .. } => true,
            StatusNote::OffsetNeedsUnit => true,
            StatusNote::InvalidOffset { .. } => true,
            _ => false,
        }
    }

    /// Whether the note tells of something that went wrong.
    pub fn is_error(&self) -> (error: bool)
        ensures
            error == self.tells_error(),
    {
        match self {
            StatusNote::InvalidPattern { .. } => true,
            StatusNote::TimeUsage => true,
            StatusNote::GoUsage => true,
            StatusNote::NoSuchBookmark { .. } => true,
            StatusNote::BookmarkNameIsNumber => true,
            StatusNote::NoBookmarks => true,
            StatusNote::NoNotifications => true,
            StatusNote::UnknownCommand { .. } => true,
            StatusNote::NoTimestamps => true,
            StatusNote::CannotParseTime { .. } => true,
            StatusNote::OffsetNeedsUnit => true,
            StatusNote::InvalidOffset { .. } => true,
            _ => false,
        }
    }
}

/// The kinds of work, in the order in which they are taken up.
#[derive(Debug, Clone, Copy, PartialEq, Eq, Structural)]
pub enum WorkKind {
    Search,
    Filter,
    Scan,
    DeferredParse,
    Idle,
}

/// The state of the viewer's engine: the file and its index, what is on
/// view, and the search and the filter that are under way.
pub struct Engine {
    pub source: LogSource,
    pub scroll_offset: usize,
    pub viewport_height: usize,
    pub search: SearchState,
    pub filter_conditions: Vec<FilterCondition>,
    pub filter_highlight: Option<Regex>,
    pub filtered_lines: Vec<usize>,
    pub filter_cursor: usize,
    pub filter_total: usize,
    pub filtering: bool,
    pub follow_mode: bool,
    pub tail_view: Option<TailView>,
    /// Whether the tail view is to be read anew.
    pub tail_wanted: bool,
    pub status: Option<StatusNote>,
    /// Whether work is handed to a background worker.
    pub has_worker: bool,
    /// Whether a request is with the worker.
    pub worker_busy: bool,
    pub search_generation: Generation,
    pub search_cancel: Option<Arc<AtomicBool>>,
    pub filter_generation: Generation,
    pub filter_cancel: Option<Arc<AtomicBool>>,
    /// The line starts as they were when the search or filter began.
    pub shared_offsets: Option<Arc<Vec<u64>>>,
}

/// The number that the search or filter after number `g` gets.
pub open spec fn next_generation(g: Generation) -> Generation {
    if g == u64::MAX {
        0
    } else {
        (g + 1) as u64
    }
}

/// How much of `total` lines is behind `cursor`, in hundredths; all of it
/// where no line is left.
pub open spec fn percent_done(cursor: usize, total: usize) -> int {
    if cursor < total {
        cursor * 100 / (total as int)
    } else {
        100
    }
}

/// How much of `total` lines is behind `cursor`, in hundredths.
pub fn percent(cursor: usize, total: usize) -> (res: usize)
    ensures
        res == percent_done(cursor, total),
{
    if cursor >= total {
        100
    } else if total > 0 {
        let done = (cursor as u128) * 100 / (total as u128);
        proof {
            assert(cursor * 100 / (total as int) <= 100) by (nonlinear_arith)
                requires
                    0 <= cursor <= total,
                    total > 0,
            ;
        }
        done as usize
    } else {
        100
    }
}

impl Engine {
    /// Whether the index and the search keep their invariants.
    pub open spec fn wf(self) -> bool {
        self.source.wf() && self.search.wf()
    }

    /// Whether a filter is set.
    pub open spec fn is_filtered(self) -> bool {
        self.filter_conditions@.len() > 0
    }

    /// How many lines are on view: those that pass the filter where one is
    /// set, else all lines of the index.
    pub open spec fn visible(self) -> int {
        if self.is_filtered() {
            self.filtered_lines@.len() as int
        } else {
            self.source.index_view().total_lines() as int
        }
    }

    /// The line of the file that stands at place `visible_idx` of the lines
    /// on view; 0 where a filter is set and lets fewer lines through.
    pub open spec fn line_on_view(self, visible_idx: usize) -> usize {
        if !self.is_filtered() {
            visible_idx
        } else if visible_idx < self.filtered_lines@.len() {
            self.filtered_lines@[visible_idx as int]
        } else {
            0
        }
    }

    /// The scroll offset that scrolling to `line` leads to: `line`, or the
    /// greatest scroll offset where that is smaller.
    pub open spec fn scroll_target(self, line: usize) -> usize {
        if line < self.max_scroll() {
            line
        } else {
            self.max_scroll() as usize
        }
    }

    /// Whether this is the state after scrolling up by `lines` in `before`.
    pub open spec fn scrolled_up_from(self, before: Engine, lines: usize) -> bool {
        if before.tail_view is Some {
            self == (Engine {
                tail_view: None,
                scroll_offset: before.max_scroll() as usize,
                ..before
            })
        } else {
            self == (Engine {
                scroll_offset: if before.scroll_offset > lines {
                    (before.scroll_offset - lines) as usize
                } else {
                    0
                },
                follow_mode: before.follow_mode && lines == 0,
                ..before
            })
        }
    }

    /// Whether this is the state after going to the end of the file in
    /// `before`.
    pub open spec fn at_bottom_of(self, before: Engine) -> bool {
        if before.source.is_scanning() {
            self == (Engine { tail_wanted: true, ..before })
        } else {
            self == (Engine {
                tail_view: None,
                scroll_offset: before.max_scroll() as usize,
                ..before
            })
        }
    }

    /// Whether this is the state after the next unit of work has been
    /// taken up in `before`, with `request` what is handed to the background
    /// worker.
    pub open spec fn submitted_from(self, before: Engine, request: Option<WorkRequest>) -> bool {
        if before.has_worker {
            before.hands_over(request) && self == (Engine {
                worker_busy: before.worker_busy || request is Some,
                ..before
            })
        } else {
            request is None && self.sync_stepped(before)
        }
    }

    /// Whether this is the state after going to the match after the current
    /// one in `before`, or, not `forward`, to the match before it: that
    /// match is the current one and the view is at its line. Nothing
    /// changes where there are no matches.
    pub open spec fn stepped_match(self, before: Engine, forward: bool) -> bool {
        let count = before.search.matches@.len() as int;
        if count == 0 {
            self == before
        } else {
            let place = if forward {
                crate::search::place_after(before.search.current_match, count)
            } else {
                crate::search::place_before(before.search.current_match, count)
            };
            &&& self == (Engine {
                search: self.search,
                scroll_offset: self.scroll_offset,
                ..before
            })
            &&& self.search == (SearchState {
                current_match: Some(place as usize),
                ..before.search
            })
            &&& self.scroll_offset == before.scroll_target(before.search.matches@[place])
        }
    }

    /// The greatest scroll offset: that at which the last line on view is
    /// the last line of the view.
    pub open spec fn max_scroll(self) -> int {
        if self.visible() > self.viewport_height {
            self.visible() - self.viewport_height
        } else {
            0
        }
    }

    /// The kind of work that is taken up next: a search under way before a
    /// filter under way, that before scanning, that before reading
    /// timestamps and levels.
    pub open spec fn next_work(self) -> WorkKind {
        if self.search.searching {
            WorkKind::Search
        } else if self.filtering {
            WorkKind::Filter
        } else if self.source.is_scanning() {
            WorkKind::Scan
        } else if !self.source.index_view().ready() {
            WorkKind::DeferredParse
        } else {
            WorkKind::Idle
        }
    }

    /// The state of the engine for a file that has just been opened. Work
    /// on a memory-mapped file is handed to a background worker.
    pub fn new(source: LogSource) -> (app: Self)
        requires
            source.wf(),
        ensures
            app.wf(),
            app.source == source,
            app.scroll_offset == 0,
            app.viewport_height == DEFAULT_VIEWPORT,
            !app.is_filtered(),
            !app.filtering,
            !app.search.searching,
            !app.follow_mode,
            app.tail_view is None,
            app.has_worker == (source is Mmap),
            !app.worker_busy,
            !app.tail_wanted,
            app.status is None,
            app.search_generation == 0,
            app.filter_generation == 0,
    {
        let has_worker = source.is_mmap();
        Engine {
            source,
            scroll_offset: 0,
            viewport_height: DEFAULT_VIEWPORT,
            search: SearchState::new(),
            filter_conditions: Vec::new(),
            filter_highlight: None,
            filtered_lines: Vec::new(),
            filter_cursor: 0,
            filter_total: 0,
            filtering: false,
            follow_mode: false,
            tail_view: None,
            tail_wanted: false,
            status: None,
            has_worker,
            worker_busy: false,
            search_generation: 0,
            search_cancel: None,
            filter_generation: 0,
            filter_cancel: None,
            shared_offsets: None,
        }
    }

    /// How many lines the index holds.
    pub fn total_lines(&self) -> (total: usize)
        ensures
            total == self.source.index_view().total_lines(),
    {
        self.source.index().total_lines()
    }

    /// How many lines are on view.
    pub fn visible_count(&self) -> (count: usize)
        ensures
            count == self.visible(),
    {
        if self.filter_conditions.len() > 0 {
            self.filtered_lines.len()
        } else {
            self.total_lines()
        }
    }

    /// The line of the file that stands at place `visible_idx` of the lines
    /// on view; 0 where a filter is set and lets fewer lines through.
    pub fn actual_line(&self, visible_idx: usize) -> (line: usize)
        ensures
            line == self.line_on_view(visible_idx),
    {
        if self.filter_conditions.len() > 0 {
            if visible_idx < self.filtered_lines.len() {
                self.filtered_lines[visible_idx]
            } else {
                0
            }
        } else {
            visible_idx
        }
    }

    /// The greatest scroll offset.
    pub fn scroll_limit(&self) -> (limit: usize)
        ensures
            limit == self.max_scroll(),
    {
        let count = self.visible_count();
        if count > self.viewport_height {
            count - self.viewport_height
        } else {
            0
        }
    }

    /// Scrolls down by `lines`, not past the last line.
    pub fn scroll_down(&mut self, lines: usize)
        ensures
            *final(self) == (Engine {
                scroll_offset: if old(self).scroll_offset + lines < old(self).max_scroll() {
                    (old(self).scroll_offset + lines) as usize
                } else {
                    old(self).max_scroll() as usize
                },
                ..*old(self)
            }),
    {
        let limit = self.scroll_limit();
        self.scroll_offset = if lines < limit && self.scroll_offset < limit - lines {
            self.scroll_offset + lines
        } else {
            limit
        };
    }

    /// Scrolls up by `lines`, not past the first line, and ends following
    /// the file's end. In the tail view it leaves the tail view instead,
    /// for the end of the indexed lines.
    pub fn scroll_up(&mut self, lines: usize)
        ensures
            final(self).scrolled_up_from(*old(self), lines),
    {
        if self.tail_view.is_some() {
            self.exit_tail_mode();
            return ;
        }
        self.scroll_offset = if self.scroll_offset > lines {
            self.scroll_offset - lines
        } else {
            0
        };
        if self.follow_mode && lines > 0 {
            self.follow_mode = false;
        }
    }

    /// Scrolls to `line`, or as far as the last line allows.
    pub fn scroll_to(&mut self, line: usize)
        ensures
            *final(self) == (Engine {
                scroll_offset: old(self).scroll_target(line),
                ..*old(self)
            }),
    {
        let limit = self.scroll_limit();
        self.scroll_offset = if line < limit {
            line
        } else {
            limit
        };
    }

    /// Scrolls to the first line.
    pub fn scroll_to_top(&mut self)
        ensures
            *final(self) == (Engine { scroll_offset: 0, ..*old(self) }),
    {
        self.scroll_offset = 0;
    }

    /// Scrolls so that the last line on view is the last line of the view.
    pub fn scroll_to_bottom(&mut self)
        ensures
            *final(self) == (Engine { scroll_offset: old(self).max_scroll() as usize, ..*old(self) }),
            old(self).max_scroll() <= usize::MAX,
    {
        self.scroll_offset = self.scroll_limit();
    }

    /// Goes to the end of the file. While the file is being scanned its end
    /// is not indexed yet: the tail view is asked for instead.
    pub fn jump_to_bottom(&mut self)
        ensures
            final(self).at_bottom_of(*old(self)),
    {
        if self.source.scanning() {
            self.tail_wanted = true;
        } else {
            self.tail_view = None;
            self.scroll_to_bottom();
        }
    }

    /// How many lines the tail view is to hold.
    pub fn tail_lines_wanted(&self) -> (count: usize)
        ensures
            count == if self.viewport_height <= usize::MAX - TAIL_MARGIN {
                (self.viewport_height + TAIL_MARGIN) as usize
            } else {
                usize::MAX
            },
    {
        if self.viewport_height <= usize::MAX - TAIL_MARGIN {
            self.viewport_height + TAIL_MARGIN
        } else {
            usize::MAX
        }
    }

    /// Shows the given lines as the tail view.
    pub fn show_tail(&mut self, lines: Vec<String>, levels: Vec<LogLevel>)
        ensures
            *final(self) == (Engine {
                tail_view: Some(TailView { lines, levels }),
                tail_wanted: false,
                ..*old(self)
            }),
    {
        self.tail_view = Some(TailView { lines, levels });
        self.tail_wanted = false;
    }

    /// Whether the tail view is shown.
    pub fn in_tail_mode(&self) -> (tail: bool)
        ensures
            tail == (self.tail_view is Some),
    {
        self.tail_view.is_some()
    }

    /// Leaves the tail view for the end of the indexed lines.
    pub fn exit_tail_mode(&mut self)
        ensures
            *final(self) == (Engine {
                tail_view: None,
                scroll_offset: old(self).max_scroll() as usize,
                ..*old(self)
            }),
            old(self).max_scroll() <= usize::MAX,
    {
        self.tail_view = None;
        self.scroll_to_bottom();
    }

    /// Takes in one tick: `grew` says whether the file has grown and its
    /// new lines have been indexed. While the view follows the file's end
    /// it scrolls there. Returns whether the view has to be drawn anew.
    pub fn tick(&mut self, grew: bool) -> (changed: bool)
        ensures
            changed == (grew || old(self).follow_mode),
            *final(self) == (Engine {
                scroll_offset: if old(self).follow_mode {
                    old(self).max_scroll() as usize
                } else {
                    old(self).scroll_offset
                },
                ..*old(self)
            }),
    {
        if self.follow_mode {
            self.scroll_to_bottom();
            true
        } else {
            grew
        }
    }
}

/// The progress of a search or of a filter run, as far as the results that
/// come back for it are concerned.
pub struct Track {
    /// The number of the run.
    pub generation: Generation,
    /// The lines found so far.
    pub found: Seq<usize>,
    /// The next line to look at.
    pub cursor: usize,
    /// Whether the run is under way.
    pub running: bool,
}

/// What comes back for one batch of a search or of a filter run.
pub struct Tagged {
    /// The number of the run that the batch was asked for.
    pub generation: Generation,
    /// The lines found in the batch.
    pub matches: Seq<usize>,
    /// The line that the batch reached.
    pub cursor: usize,
    /// Whether the run has ended with the batch.
    pub done: bool,
}

impl Track {
    /// The progress of the run that begins after this one: a new number,
    /// nothing found, at the first line.
    pub open spec fn begun(self) -> Track {
        Track {
            generation: next_generation(self.generation),
            found: Seq::empty(),
            cursor: 0,
            running: true,
        }
    }

    /// The progress after a batch has come back: unchanged where the batch
    /// was asked for another run; else its lines are added to those found.
    pub open spec fn took(self, batch: Tagged) -> Track {
        if batch.generation != self.generation {
            self
        } else {
            Track {
                generation: self.generation,
                found: self.found + batch.matches,
                cursor: batch.cursor,
                running: self.running && !batch.done,
            }
        }
    }

    /// The progress after the first `n` of some batches have come back, in
    /// order.
    pub open spec fn took_all(self, batches: Seq<Tagged>, n: int) -> Track
        decreases n,
    {
        if n <= 0 {
            self
        } else {
            self.took_all(batches, n - 1).took(batches[n - 1])
        }
    }
}

/// The lines of the first `n` batches that were asked for run `generation`,
/// in order.
pub open spec fn matches_tagged(batches: Seq<Tagged>, generation: Generation, n: int) -> Seq<usize>
    decreases n,
{
    if n <= 0 {
        Seq::empty()
    } else if batches[n - 1].generation == generation {
        matches_tagged(batches, generation, n - 1) + batches[n - 1].matches
    } else {
        matches_tagged(batches, generation, n - 1)
    }
}

/// A batch asked for another run than the current one is dropped: it
/// changes nothing.
pub proof fn lemma_stale_batch_dropped(track: Track, batch: Tagged)
    requires
        batch.generation != track.generation,
    ensures
        track.took(batch) == track,
{
}

/// A run that begins gets another number than the run before it, so that
/// whatever still comes back for that one is dropped.
pub proof fn lemma_new_run_outdates(track: Track, batch: Tagged)
    requires
        batch.generation == track.generation,
    ensures
        track.begun().generation != track.generation,
        track.begun().took(batch) == track.begun(),
{
}

/// After a run has begun, whatever batches come back in whatever order,
/// the lines found are exactly those of the batches asked for this run, in
/// the order in which they came: never a line of an earlier run.
pub proof fn lemma_only_current_run_counts(track: Track, batches: Seq<Tagged>, n: int)
    requires
        0 <= n <= batches.len(),
    ensures
        track.begun().took_all(batches, n).generation == track.begun().generation,
        track.begun().took_all(batches, n).found == matches_tagged(
            batches,
            track.begun().generation,
            n,
        ),
    decreases n,
{
    if n > 0 {
        lemma_only_current_run_counts(track, batches, n - 1);
        let before = track.begun().took_all(batches, n - 1);
        if batches[n - 1].generation == before.generation {
            assert(before.took(batches[n - 1]).found =~= matches_tagged(
                batches,
                track.begun().generation,
                n,
            ));
        }
    } else {
        assert(track.begun().found =~= matches_tagged(batches, track.begun().generation, 0));
    }
}

/// The number that the search or filter after number `g` gets.
pub fn bump(g: Generation) -> (next: Generation)
    ensures
        next == next_generation(g),
        next != g,
{
    if g == u64::MAX {
        0
    } else {
        g + 1
    }
}

impl Engine {
    /// The progress of the search.
    pub open spec fn search_track(self) -> Track {
        Track {
            generation: self.search_generation,
            found: self.search.matches@,
            cursor: self.search.search_cursor,
            running: self.search.searching,
        }
    }

    /// The progress of the filter run.
    pub open spec fn filter_track(self) -> Track {
        Track {
            generation: self.filter_generation,
            found: self.filtered_lines@,
            cursor: self.filter_cursor,
            running: self.filtering,
        }
    }

    /// Whether everything but the search, its number, its stop flag, the
    /// line starts kept for it and the status is as in `before`.
    pub open spec fn same_but_search(self, before: Engine) -> bool {
        self == (Engine {
            search: self.search,
            search_generation: self.search_generation,
            search_cancel: self.search_cancel,
            shared_offsets: self.shared_offsets,
            status: self.status,
            ..before
        })
    }

    /// Whether everything but the filter, its number, its stop flag, the
    /// line starts kept for it, the scroll offset and the status is as in
    /// `before`.
    pub open spec fn same_but_filter(self, before: Engine) -> bool {
        self == (Engine {
            filter_conditions: self.filter_conditions,
            filter_highlight: self.filter_highlight,
            filtered_lines: self.filtered_lines,
            filter_cursor: self.filter_cursor,
            filter_total: self.filter_total,
            filtering: self.filtering,
            filter_generation: self.filter_generation,
            filter_cancel: self.filter_cancel,
            shared_offsets: self.shared_offsets,
            scroll_offset: self.scroll_offset,
            status: self.status,
            ..before
        })
    }

    /// Keeps the line starts as they are now, for the batches of a search
    /// or filter that are run in the background.
    fn snapshot_offsets(&mut self)
        ensures
            *final(self) == (Engine { shared_offsets: final(self).shared_offsets, ..*old(self) }),
            final(self).shared_offsets matches Some(kept)
                && kept@ == old(self).source.index_view().line_offsets,
    {
        let offsets = slice_to_vec(self.source.index().line_offsets().as_slice());
        self.shared_offsets = Some(Arc::new(offsets));
    }

    /// Whether the line starts are kept as they were in `before`, where
    /// `before` has a background worker; else whether what was kept is
    /// still kept.
    pub open spec fn keeps_offsets_of(self, before: Engine) -> bool {
        if before.has_worker {
            self.shared_offsets matches Some(kept) && kept@
                == before.source.index_view().line_offsets
        } else {
            self.shared_offsets == before.shared_offsets
        }
    }

    /// Whether this is the state after a search for `pattern` has been
    /// asked for in `before`, with `compiled` the pattern that is compiled
    /// for it. Where the pattern is refused, the reason is kept in the
    /// search state and nothing else changes: the search before it, its
    /// matches and its progress stay as they are. Else the search begins,
    /// over all lines of the index, the search before it is outdated, and
    /// with a background worker the line starts are kept as they are now.
    pub open spec fn search_begun_from(
        self,
        before: Engine,
        pattern: Seq<char>,
        compiled: Seq<char>,
    ) -> bool {
        if SearchState::is_refused(pattern, compiled) {
            &&& self == (Engine { search: self.search, ..before })
            &&& self.search == (SearchState { error: self.search.error, ..before.search })
            &&& self.search.error is Some
        } else {
            &&& self.same_but_search(before)
            &&& self.search.holds_pattern(pattern, compiled)
            &&& self.search_track() == before.search_track().begun()
            &&& self.search.search_total == before.source.index_view().total_lines()
            &&& self.status == Some(StatusNote::Searching)
            &&& self.keeps_offsets_of(before)
            &&& !before.has_worker ==> self.search_cancel == before.search_cancel
        }
    }

    /// Searches for a text as it is written, in any letter case.
    pub fn execute_search(&mut self, pattern: &str)
        requires
            old(self).wf(),
        ensures
            final(self).wf(),
            final(self).search_begun_from(*old(self), pattern@, literal_pattern(pattern@)),
    {
        self.search.set_literal(pattern);
        self.begin_search();
    }

    /// Searches for a regular expression. Where the expression is refused,
    /// the reason is kept in the search state and no search begins.
    pub fn execute_regex_search(&mut self, pattern: &str)
        requires
            old(self).wf(),
        ensures
            final(self).wf(),
            final(self).search_begun_from(*old(self), pattern@, pattern@),
    {
        self.search.set_regex(pattern);
        self.begin_search();
    }

    /// Begins the search for what has just been set, unless it was
    /// refused: the search before it is told to stop and outdated by a new
    /// number, and the line starts are kept for the background worker.
    fn begin_search(&mut self)
        requires
            old(self).source.wf(),
            old(self).search.wf(),
            old(self).search.error is None ==> old(self).search.matches@.len() == 0 && old(
                self,
            ).search.current_match is None,
        ensures
            final(self).wf(),
            old(self).search.error is Some ==> *final(self) == *old(self),
            old(self).search.error is None ==> {
                &&& final(self).same_but_search(*old(self))
                &&& final(self).search.pattern == old(self).search.pattern
                &&& final(self).search.regex == old(self).search.regex
                &&& final(self).search.error is None
                &&& final(self).search.matches@.len() == 0
                &&& final(self).search.current_match is None
                &&& final(self).search_track() == old(self).search_track().begun()
                &&& final(self).search.search_total == old(self).source.index_view().total_lines()
                &&& final(self).status == Some(StatusNote::Searching)
                &&& final(self).keeps_offsets_of(*old(self))
                &&& !old(self).has_worker ==> final(self).search_cancel == old(self).search_cancel
            },
    {
        if self.search.error.is_some() {
            return ;
        }
        match &self.search_cancel {
            Some(flag) => request_stop(flag),
            None => {},
        }
        self.search_generation = bump(self.search_generation);
        let total = self.source.index().total_lines();
        self.search.start_search(total);
        if self.has_worker {
            self.snapshot_offsets();
            self.search_cancel = Some(new_flag());
        }
        self.status = Some(StatusNote::Searching);
        proof {
            assert(self.search_track().found =~= Seq::<usize>::empty());
        }
    }

    /// Ends the search: a search under way is told to stop and outdated by
    /// a new number, so that what still comes back for it is dropped, and
    /// nothing is searched for any more.
    pub fn cancel_search(&mut self)
        ensures
            *final(self) == (Engine {
                search: final(self).search,
                search_generation: next_generation(old(self).search_generation),
                ..*old(self)
            }),
            final(self).search.wf(),
            final(self).search.pattern@.len() == 0,
            final(self).search.regex is None,
            final(self).search.error is None,
            final(self).search.matches@.len() == 0,
            final(self).search.current_match is None,
            final(self).search.search_cursor == 0,
            final(self).search.search_total == 0,
            !final(self).search.searching,
    {
        match &self.search_cancel {
            Some(flag) => request_stop(flag),
            None => {},
        }
        self.search_generation = bump(self.search_generation);
        self.search = SearchState::new();
    }

    /// Whether the filter of `before` has been dropped: no conditions, no
    /// lines held back, the view at the top, the run outdated by a new
    /// number, and nothing said of it.
    pub open spec fn filter_dropped_from(self, before: Engine) -> bool {
        &&& self == (Engine {
            filter_conditions: self.filter_conditions,
            filter_highlight: None,
            filtered_lines: self.filtered_lines,
            filtering: false,
            filter_generation: next_generation(before.filter_generation),
            scroll_offset: 0,
            ..before
        })
        &&& self.filter_conditions@.len() == 0
        &&& self.filtered_lines@.len() == 0
    }

    /// Drops the filter without a word: a run under way is told to stop
    /// and outdated, and every line is on view again.
    pub fn drop_filter(&mut self)
        ensures
            final(self).filter_dropped_from(*old(self)),
    {
        match &self.filter_cancel {
            Some(flag) => request_stop(flag),
            None => {},
        }
        self.filter_generation = bump(self.filter_generation);
        self.filter_conditions = Vec::new();
        self.filter_highlight = None;
        self.filtered_lines = Vec::new();
        self.filtering = false;
        self.scroll_offset = 0;
    }

    /// Whether a search is under way.
    pub fn searching(&self) -> (under_way: bool)
        ensures
            under_way == self.search.searching,
    {
        self.search.searching
    }

    /// What is said of the search: how many lines it found, where it has
    /// `finished`; else how far it has come, in hundredths of the lines
    /// that it covers, and how many lines it has found so far.
    pub open spec fn search_note(self, finished: bool) -> StatusNote {
        if finished {
            StatusNote::SearchDone { matches: self.search.matches@.len() as usize }
        } else {
            StatusNote::SearchProgress {
                percent: percent_done(self.search.search_cursor, self.search.search_total) as usize,
                matches: self.search.matches@.len() as usize,
            }
        }
    }

    /// Whether this is the state after the search of `before` has been
    /// noted: how far it has come, or, where it has `finished`, how many
    /// lines it found, with the view at the first match at or after the line
    /// that was at its top.
    pub open spec fn search_noted(self, before: Engine, finished: bool) -> bool {
        &&& self == (Engine {
            search: self.search,
            status: self.status,
            scroll_offset: self.scroll_offset,
            ..before
        })
        &&& self.search_track() == before.search_track()
        &&& self.search.regex == before.search.regex
        &&& self.search.pattern == before.search.pattern
        &&& self.search.error == before.search.error
        &&& self.search.search_total == before.search.search_total
        &&& self.status == Some(before.search_note(finished))
        &&& if finished && before.search.matches@.len() > 0 {
            let at = nearest(before.search.matches@, before.scroll_offset);
            let line = before.search.matches@[at];
            &&& self.search.current_match == Some(at as usize)
            &&& self.scroll_offset == if line < before.max_scroll() {
                line
            } else {
                before.max_scroll() as usize
            }
        } else {
            &&& self.search.current_match == before.search.current_match
            &&& self.scroll_offset == before.scroll_offset
        }
    }

    /// Notes how far the search has come, or, where it has finished, how
    /// many lines it found, and then goes to the first match at or after the
    /// line at the top of the view.
    fn note_search(&mut self, finished: bool)
        requires
            old(self).wf(),
        ensures
            final(self).wf(),
            final(self).search_noted(*old(self), finished),
    {
        if !finished {
            let done = percent(self.search.search_cursor, self.search.search_total);
            self.status = Some(
                StatusNote::SearchProgress { percent: done, matches: self.search.matches.len() },
            );
        } else {
            self.status = Some(StatusNote::SearchDone { matches: self.search.match_count() });
            match self.search.jump_to_nearest(self.scroll_offset) {
                Some(line) => {
                    self.scroll_to(line);
                },
                None => {},
            }
        }
    }

    /// Whether this is the state after the next `SYNC_BATCH_LINES` lines of
    /// `before` have been searched at once.
    pub open spec fn search_ticked(self, before: Engine) -> bool {
        exists|mid: Engine|
            {
                &&& mid == (Engine { search: mid.search, ..before })
                &&& mid.search.wf()
                &&& mid.search.regex == before.search.regex
                &&& mid.search.pattern == before.search.pattern
                &&& mid.search.error == before.search.error
                &&& mid.search.current_match == before.search.current_match
                &&& mid.search.search_total == before.search.search_total
                &&& match before.search.regex {
                    Some(re) => {
                        &&& mid.search.search_cursor == batch_stop(
                            before.search.search_total as int,
                            before.search.search_cursor,
                            SYNC_BATCH_LINES,
                        )
                        &&& mid.search.matches@ == before.search.matches@ + matching_lines_in(
                            &re,
                            before.source.bytes(),
                            before.source.index_view().line_offsets,
                            before.source.bytes().len() as int,
                            before.search.search_cursor as int,
                            mid.search.search_cursor as int,
                        )
                        &&& mid.search.searching == (before.search.searching
                            && mid.search.search_cursor < before.search.search_total)
                    },
                    None => {
                        &&& !mid.search.searching
                        &&& mid.search.search_cursor == before.search.search_cursor
                        &&& mid.search.matches@ == before.search.matches@
                    },
                }
                &&& self.search_noted(mid, !mid.search.searching)
            }
    }

    /// Searches the next `SYNC_BATCH_LINES` lines at once. Returns whether
    /// the search is still under way. When it has ended, the view goes to
    /// the first match at or after its top line.
    pub fn search_tick(&mut self) -> (more: bool)
        requires
            old(self).wf(),
        ensures
            final(self).wf(),
            more == final(self).search.searching,
            final(self).search_ticked(*old(self)),
    {
        let more = self.search.search_batch(SYNC_BATCH_LINES, &self.source);
        let ghost mid = *self;
        self.note_search(!more);
        proof {
            assert(self.search_noted(mid, !mid.search.searching));
        }
        more
    }

    /// Sets the filter that an expression asks for and begins the filter
    /// run: the run before it is told to stop and outdated by a new
    /// number. An expression without a term clears the filter. Where the
    /// regex engine refuses a term, the message is noted and nothing else
    /// changes.
    pub fn apply_filter(&mut self, pattern: &str)
        requires
            old(self).wf(),
        ensures
            final(self).wf(),
            final(self).filter_set_from(*old(self), pattern@),
    {
        let plan = match parse_filter(pattern) {
            Ok(plan) => plan,
            Err(message) => {
                self.status = Some(StatusNote::InvalidPattern { message });
                return ;
            },
        };
        if plan.conditions.len() == 0 {
            self.clear_filter();
            return ;
        }
        match &self.filter_cancel {
            Some(flag) => request_stop(flag),
            None => {},
        }
        self.filter_generation = bump(self.filter_generation);
        self.filtered_lines.clear();
        self.filter_conditions = plan.conditions;
        self.filter_highlight = plan.highlight;
        self.filter_cursor = 0;
        self.filter_total = self.total_lines();
        self.filtering = true;
        self.scroll_offset = 0;
        if self.has_worker {
            self.snapshot_offsets();
            self.filter_cancel = Some(new_flag());
        }
        self.status = Some(StatusNote::Filtering);
        proof {
            assert(self.filter_track().found =~= Seq::<usize>::empty());
        }
    }

    /// Whether this is the state after the filter that `pattern` asks for
    /// has been set in `before`: the filter run begins, the run before it
    /// outdated, and with a background worker the line starts are kept as
    /// they are now; an expression without a term clears the filter; where
    /// the regex engine refuses a term, that is noted and nothing else
    /// changes.
    pub open spec fn filter_set_from(self, before: Engine, pattern: Seq<char>) -> bool {
        &&& self.same_but_filter(before)
        &&& exists|res: Result<crate::filter::FilterPlan, String>|
            {
                &&& is_parsed(pattern, res)
                &&& match res {
                    Err(_) => {
                        &&& self.filter_track() == before.filter_track()
                        &&& self.filter_conditions == before.filter_conditions
                        &&& self.scroll_offset == before.scroll_offset
                        &&& self.status matches Some(StatusNote::InvalidPattern { .. })
                    },
                    Ok(plan) => if plan.conditions@.len() == 0 {
                        self.is_cleared_from(before)
                    } else {
                        &&& self.filter_conditions == plan.conditions
                        &&& self.filter_highlight == plan.highlight
                        &&& self.filter_track() == before.filter_track().begun()
                        &&& self.filter_total == before.source.index_view().total_lines()
                        &&& self.scroll_offset == 0
                        &&& self.status == Some(StatusNote::Filtering)
                        &&& self.keeps_offsets_of(before)
                        &&& !before.has_worker ==> self.filter_cancel == before.filter_cancel
                    },
                }
            }
    }

    /// Whether this is the state after the filter of `before` has been
    /// cleared: no conditions, no lines held back, the view at the top, the
    /// run outdated by a new number; nothing but a note where no filter was
    /// set or under way.
    pub open spec fn is_cleared_from(self, before: Engine) -> bool {
        if before.is_filtered() || before.filtering {
            &&& self.filter_conditions@.len() == 0
            &&& self.filter_highlight is None
            &&& self.filtered_lines@.len() == 0
            &&& !self.filtering
            &&& self.scroll_offset == 0
            &&& self.filter_generation == next_generation(before.filter_generation)
            &&& self.filter_cursor == before.filter_cursor
            &&& self.filter_total == before.filter_total
            &&& self.status matches Some(StatusNote::FilterCleared)
        } else {
            &&& self.filter_track() == before.filter_track()
            &&& self.filter_conditions == before.filter_conditions
            &&& self.scroll_offset == before.scroll_offset
            &&& self.status matches Some(StatusNote::NoActiveFilter)
        }
    }

    /// Clears the filter: a run under way is told to stop and outdated, and
    /// every line is on view again.
    pub fn clear_filter(&mut self)
        requires
            old(self).wf(),
        ensures
            final(self).wf(),
            final(self).same_but_filter(*old(self)),
            final(self).is_cleared_from(*old(self)),
    {
        if self.filter_conditions.len() > 0 || self.filtering {
            match &self.filter_cancel {
                Some(flag) => request_stop(flag),
                None => {},
            }
            self.filter_generation = bump(self.filter_generation);
            self.filter_conditions.clear();
            self.filter_highlight = None;
            self.filtered_lines.clear();
            self.filtering = false;
            self.scroll_offset = 0;
            self.status = Some(StatusNote::FilterCleared);
        } else {
            self.status = Some(StatusNote::NoActiveFilter);
        }
    }

    /// What is said of the filter run: how many lines it let through, where
    /// it has `finished`; else how far it has come, in hundredths of the
    /// lines that it covers, and how many lines it has let through so far.
    pub open spec fn filter_note(self, finished: bool) -> StatusNote {
        if finished {
            StatusNote::FilterDone { lines: self.filtered_lines@.len() as usize }
        } else {
            StatusNote::FilterProgress {
                percent: percent_done(self.filter_cursor, self.filter_total) as usize,
                matches: self.filtered_lines@.len() as usize,
            }
        }
    }

    /// Notes how far the filter run has come, or, where it has finished, how
    /// many lines it let through.
    fn note_filter(&mut self, finished: bool)
        ensures
            *final(self) == (Engine {
                status: Some(old(self).filter_note(finished)),
                ..*old(self)
            }),
    {
        if !finished {
            let done = percent(self.filter_cursor, self.filter_total);
            self.status = Some(
                StatusNote::FilterProgress { percent: done, matches: self.filtered_lines.len() },
            );
        } else {
            self.status = Some(StatusNote::FilterDone { lines: self.filtered_lines.len() });
        }
    }

    /// Whether this is the state after the next `SYNC_BATCH_LINES` lines of
    /// `before` have been held against the filter at once, and it has been
    /// noted how far the run has come. Nothing changes where no filter run
    /// is under way.
    pub open spec fn filter_ticked(self, before: Engine) -> bool {
        if !before.filtering {
            self == before
        } else {
            &&& self == (Engine {
                filtered_lines: self.filtered_lines,
                filter_cursor: self.filter_cursor,
                filtering: self.filtering,
                status: self.status,
                ..before
            })
            &&& self.filter_cursor == batch_stop(
                before.filter_total as int,
                before.filter_cursor,
                SYNC_BATCH_LINES,
            )
            &&& self.filtered_lines@ == before.filtered_lines@ + passing_lines_in(
                pairs_of(before.filter_conditions@),
                before.source.bytes(),
                before.source.index_view().line_offsets,
                before.source.bytes().len() as int,
                before.filter_cursor as int,
                self.filter_cursor as int,
            )
            &&& self.filtering == (self.filter_cursor < before.filter_total)
            &&& self.status == Some(self.filter_note(!self.filtering))
        }
    }

    /// Holds the next `SYNC_BATCH_LINES` lines against the filter at once.
    /// Returns whether the run is still under way. Nothing changes where
    /// none is.
    pub fn filter_tick(&mut self) -> (more: bool)
        requires
            old(self).wf(),
        ensures
            final(self).wf(),
            more == final(self).filtering,
            final(self).filter_ticked(*old(self)),
    {
        if !self.filtering {
            return false;
        }
        let pairs = condition_pairs(&self.filter_conditions);
        let data = self.source.data();
        let mut out = filter_lines(
            data,
            pairs.as_slice(),
            self.source.index().line_offsets().as_slice(),
            data.len(),
            self.filter_cursor,
            SYNC_BATCH_LINES,
            self.filter_total,
            None,
        );
        self.filtered_lines.append(&mut out.matches);
        self.filter_cursor = out.cursor;
        if out.cursor >= self.filter_total {
            self.filtering = false;
        }
        self.note_filter(!self.filtering);
        self.filtering
    }

    /// Goes to the match after the current one, the first after the last.
    pub fn next_match(&mut self)
        requires
            old(self).wf(),
        ensures
            final(self).wf(),
            final(self).stepped_match(*old(self), true),
    {
        match self.search.next_match() {
            Some(line) => {
                self.scroll_to(line);
            },
            None => {},
        }
    }

    /// Goes to the match before the current one, the last before the
    /// first.
    pub fn prev_match(&mut self)
        requires
            old(self).wf(),
        ensures
            final(self).wf(),
            final(self).stepped_match(*old(self), false),
    {
        match self.search.prev_match() {
            Some(line) => {
                self.scroll_to(line);
            },
            None => {},
        }
    }

    /// Whether this is the state after following the file's end has been
    /// switched in `before`: switched on, the view goes to the end of the
    /// file and the status line is cleared; switched off, that is noted.
    pub open spec fn follow_switched_from(self, before: Engine) -> bool {
        if before.follow_mode {
            self == (Engine {
                follow_mode: false,
                status: Some(StatusNote::FollowOff),
                ..before
            })
        } else if before.source.is_scanning() {
            self == (Engine { follow_mode: true, tail_wanted: true, status: None, ..before })
        } else {
            self == (Engine {
                follow_mode: true,
                tail_view: None,
                scroll_offset: before.max_scroll() as usize,
                status: None,
                ..before
            })
        }
    }

    /// Switches following the file's end on or off.
    pub fn toggle_follow(&mut self)
        ensures
            final(self).follow_switched_from(*old(self)),
    {
        self.follow_mode = !self.follow_mode;
        if self.follow_mode {
            self.jump_to_bottom();
            self.status = None;
        } else {
            self.status = Some(StatusNote::FollowOff);
        }
    }

    /// Whether lines are left to scan.
    pub fn is_scanning(&self) -> (scanning: bool)
        ensures
            scanning == self.source.is_scanning(),
    {
        self.source.scanning()
    }

    /// Whether the timestamp and level of every line have been read.
    pub fn indexing_ready(&self) -> (ready: bool)
        ensures
            ready == self.source.index_view().ready(),
    {
        self.source.indexing_ready()
    }

    /// Whether the view has settled after a step of scanning that began in
    /// `before`: once scanning has ended the tail view is left for the end
    /// of the indexed lines; while it goes on, a view that follows the
    /// file's end asks for the tail view anew, or scrolls to the end of the
    /// indexed lines. `self` holds what was scanned.
    pub open spec fn view_settled(self, before: Engine, ended: bool) -> bool {
        if ended && before.tail_view is Some {
            &&& self.tail_view is None
            &&& self.scroll_offset == self.max_scroll()
            &&& self.tail_wanted == before.tail_wanted
        } else if before.follow_mode && before.tail_view is Some {
            &&& self.tail_view == before.tail_view
            &&& self.scroll_offset == before.scroll_offset
            &&& self.tail_wanted
        } else if before.follow_mode {
            &&& self.tail_view == before.tail_view
            &&& self.scroll_offset == self.max_scroll()
            &&& self.tail_wanted == before.tail_wanted
        } else {
            &&& self.tail_view == before.tail_view
            &&& self.scroll_offset == before.scroll_offset
            &&& self.tail_wanted == before.tail_wanted
        }
    }

    /// Settles the view after a step of scanning.
    fn settle_view(&mut self)
        ensures
            *final(self) == (Engine {
                tail_view: final(self).tail_view,
                scroll_offset: final(self).scroll_offset,
                tail_wanted: final(self).tail_wanted,
                ..*old(self)
            }),
            final(self).view_settled(*old(self), !old(self).source.is_scanning()),
    {
        let ended = !self.source.scanning();
        if ended && self.tail_view.is_some() {
            self.tail_view = None;
            self.scroll_to_bottom();
        } else if self.follow_mode && self.tail_view.is_some() {
            self.tail_wanted = true;
        } else if self.follow_mode {
            self.scroll_to_bottom();
        }
    }

    /// Whether `self` differs from `before` in nothing but the source, and
    /// there in nothing but the index and how far scanning has come.
    pub open spec fn same_but_index(self, before: Engine) -> bool {
        &&& self == (Engine { source: self.source, ..before })
        &&& self.source.bytes() == before.source.bytes()
        &&& self.source.scan_to() == before.source.scan_to()
        &&& (self.source is Mmap) == (before.source is Mmap)
    }

    /// Scans the next lines of the file at once.
    pub fn scan_tick(&mut self)
        requires
            old(self).wf(),
        ensures
            final(self).wf(),
            final(self).same_but_index(*old(self)),
            final(self).source.scanned_from(old(self).source),
    {
        self.source.scan_batch();
    }

    /// Reads the timestamps and levels of the next `SYNC_BATCH_LINES` lines
    /// at once. Returns whether lines are left to read.
    pub fn parse_deferred_batch(&mut self) -> (more: bool)
        requires
            old(self).wf(),
        ensures
            final(self).wf(),
            final(self).same_but_index(*old(self)),
            final(self).source.scan_from() == old(self).source.scan_from(),
            final(self).source.parsed_from(old(self).source, SYNC_BATCH_LINES),
            more == !final(self).source.index_view().ready(),
    {
        self.source.parse_deferred_batch(SYNC_BATCH_LINES)
    }

    /// Whether this is the state after one step of work has been done at
    /// once in `before`: a step of the search where one is under way, else
    /// of the filter run, else of scanning, else of reading timestamps and
    /// levels; nothing where no work is left.
    pub open spec fn sync_stepped(self, before: Engine) -> bool {
        match before.next_work() {
            WorkKind::Search => self.search_ticked(before),
            WorkKind::Filter => self.filter_ticked(before),
            WorkKind::Scan => exists|mid: Engine|
                {
                    &&& mid.same_but_index(before)
                    &&& mid.source.scanned_from(before.source)
                    &&& self == (Engine {
                        tail_view: self.tail_view,
                        scroll_offset: self.scroll_offset,
                        tail_wanted: self.tail_wanted,
                        ..mid
                    })
                    &&& self.view_settled(mid, !mid.source.is_scanning())
                },
            WorkKind::DeferredParse => {
                &&& self.same_but_index(before)
                &&& self.source.scan_from() == before.source.scan_from()
                &&& self.source.parsed_from(before.source, SYNC_BATCH_LINES)
            },
            WorkKind::Idle => self == before,
        }
    }

    /// Does one step of work at once: of the search where one is under way,
    /// else of the filter run, else of scanning, else of reading timestamps
    /// and levels.
    pub fn submit_sync_work(&mut self)
        requires
            old(self).wf(),
        ensures
            final(self).wf(),
            final(self).sync_stepped(*old(self)),
    {
        if self.searching() {
            self.search_tick();
        } else if self.filtering {
            self.filter_tick();
        } else if self.is_scanning() {
            self.scan_tick();
            let ghost mid = *self;
            self.settle_view();
            proof {
                assert(self.view_settled(mid, !mid.source.is_scanning()));
            }
        } else if !self.indexing_ready() {
            self.parse_deferred_batch();
        }
    }

    /// Whether `request` is the request for the next batch of the search in
    /// `self`.
    pub open spec fn asks_search(self, request: WorkRequest) -> bool {
        &&& request matches WorkRequest::SearchBatch {
            mmap,
            regex,
            line_offsets,
            data_len,
            start_line,
            batch_size,
            generation,
            cancel,
        }
        &&& self.source is Mmap
        &&& mmap == self.source->mmap
        &&& Some(regex) == self.search.regex
        &&& Some(line_offsets) == self.shared_offsets
        &&& data_len == self.source.bytes().len()
        &&& start_line == self.search.search_cursor
        &&& batch_size == WORKER_BATCH_LINES
        &&& generation == self.search_generation
        &&& self.search_cancel is Some ==> Some(cancel) == self.search_cancel
    }

    /// Whether `request` is the request for the next batch of the filter
    /// run in `self`.
    pub open spec fn asks_filter(self, request: WorkRequest) -> bool {
        &&& request matches WorkRequest::FilterBatch {
            mmap,
            conditions,
            line_offsets,
            data_len,
            start_line,
            batch_size,
            generation,
            cancel,
        }
        &&& self.source is Mmap
        &&& mmap == self.source->mmap
        &&& conditions@ == pairs_of(self.filter_conditions@)
        &&& Some(line_offsets) == self.shared_offsets
        &&& data_len == self.source.bytes().len()
        &&& start_line == self.filter_cursor
        &&& batch_size == WORKER_BATCH_LINES
        &&& generation == self.filter_generation
        &&& self.filter_cancel is Some ==> Some(cancel) == self.filter_cancel
    }

    /// Whether `request` is the request for the next step of scanning in
    /// `self`.
    pub open spec fn asks_scan(self, request: WorkRequest) -> bool {
        &&& request matches WorkRequest::ScanBatch {
            mmap,
            start_byte,
            scan_limit,
            ts_format,
            max_lines,
        }
        &&& self.source is Mmap
        &&& mmap == self.source->mmap
        &&& start_byte == self.source.scan_from()
        &&& scan_limit == self.source.scan_to()
        &&& ts_format == self.source.index_view().timestamp_format
        &&& max_lines == SCAN_BATCH_LINES
    }

    /// Whether `request` is the request to read the timestamps and levels
    /// of the next lines in `self`.
    pub open spec fn asks_parse(self, request: WorkRequest) -> bool {
        let index = self.source.index_view();
        &&& request matches WorkRequest::DeferredParseBatch {
            mmap,
            offsets,
            start_index,
            ts_format,
            last_ts,
        }
        &&& self.source is Mmap
        &&& mmap == self.source->mmap
        &&& start_index == index.parse_cursor
        &&& offsets@ == index.line_offsets.subrange(
            index.parse_cursor as int,
            index.batch_end(SYNC_BATCH_LINES),
        )
        &&& offsets@.len() > 0
        &&& ts_format == index.timestamp_format
        &&& last_ts == index.last_parsed_ts
    }

    /// Whether `request` is what is handed to the background worker next
    /// in `self`: nothing while a request is with the worker; else the next
    /// batch of the search where one is under way, else of the filter run,
    /// else the next step of scanning, else of reading timestamps and
    /// levels. Nothing is handed over where what the request needs is not
    /// there: the expression, the kept line starts, a line to read.
    pub open spec fn hands_over(self, request: Option<WorkRequest>) -> bool {
        if self.worker_busy || !(self.source is Mmap) {
            request is None
        } else {
            match self.next_work() {
                WorkKind::Search => match request {
                    Some(r) => self.asks_search(r),
                    None => self.search.regex is None || self.shared_offsets is None,
                },
                WorkKind::Filter => match request {
                    Some(r) => self.asks_filter(r),
                    None => self.shared_offsets is None,
                },
                WorkKind::Scan => request matches Some(r) && self.asks_scan(r),
                WorkKind::DeferredParse => match request {
                    Some(r) => self.asks_parse(r),
                    None => self.source.index_view().parse_cursor
                        >= self.source.index_view().line_offsets.len(),
                },
                WorkKind::Idle => request is None,
            }
        }
    }

    /// Takes up the next unit of work. With a background worker, the
    /// request for it is returned, to be handed to the worker, and the
    /// worker counts as busy until `poll_worker` takes in what comes back;
    /// at most one request is under way. Without one, the step is done at
    /// once and nothing is returned.
    pub fn submit_next_work(&mut self) -> (request: Option<WorkRequest>)
        requires
            old(self).wf(),
        ensures
            final(self).wf(),
            final(self).submitted_from(*old(self), request),
    {
        if !self.has_worker {
            self.submit_sync_work();
            return None;
        }
        if self.worker_busy {
            return None;
        }
        let mmap = match self.source.mmap_arc() {
            Some(m) => m,
            None => {
                return None;
            },
        };
        let data_len = self.source.data().len();
        let request = if self.searching() {
            let regex = match &self.search.regex {
                Some(re) => re.clone(),
                None => {
                    return None;
                },
            };
            let line_offsets = match &self.shared_offsets {
                Some(kept) => share(kept),
                None => {
                    return None;
                },
            };
            let cancel = match &self.search_cancel {
                Some(flag) => share(flag),
                None => new_flag(),
            };
            WorkRequest::SearchBatch {
                mmap,
                regex,
                line_offsets,
                data_len,
                start_line: self.search.search_cursor,
                batch_size: WORKER_BATCH_LINES,
                generation: self.search_generation,
                cancel,
            }
        } else if self.filtering {
            let conditions = condition_pairs(&self.filter_conditions);
            let line_offsets = match &self.shared_offsets {
                Some(kept) => share(kept),
                None => {
                    return None;
                },
            };
            let cancel = match &self.filter_cancel {
                Some(flag) => share(flag),
                None => new_flag(),
            };
            WorkRequest::FilterBatch {
                mmap,
                conditions,
                line_offsets,
                data_len,
                start_line: self.filter_cursor,
                batch_size: WORKER_BATCH_LINES,
                generation: self.filter_generation,
                cancel,
            }
        } else if self.is_scanning() {
            let (start_byte, scan_limit) = match self.source.scan_progress() {
                Some(progress) => progress,
                None => {
                    return None;
                },
            };
            WorkRequest::ScanBatch {
                mmap,
                start_byte,
                scan_limit,
                ts_format: self.source.index().timestamp_format().clone(),
                max_lines: SCAN_BATCH_LINES,
            }
        } else if !self.indexing_ready() {
            let index = self.source.index();
            let cursor = index.parse_cursor();
            let total = index.total_lines();
            if cursor >= total {
                return None;
            }
            let end = if SYNC_BATCH_LINES < total - cursor {
                cursor + SYNC_BATCH_LINES
            } else {
                total
            };
            let offsets = slice_to_vec(slice_subrange(index.line_offsets().as_slice(), cursor, end));
            WorkRequest::DeferredParseBatch {
                mmap,
                offsets,
                start_index: cursor,
                ts_format: index.timestamp_format().clone(),
                last_ts: index.last_parsed_ts(),
            }
        } else {
            return None;
        };
        self.worker_busy = true;
        Some(request)
    }

    /// Whether this is the state after what a step of scanning found has
    /// come back to `before`. A chunk that lacks metadata for one of its
    /// lines is dropped, and so is any chunk for a buffered file.
    pub open spec fn took_scan(self, before: Engine, chunk: IndexChunk, next_offset: u64) -> bool {
        if before.source is Mmap && chunk.wf() {
            let ended = !self.source.is_scanning();
            &&& self == (Engine {
                source: self.source,
                tail_view: self.tail_view,
                scroll_offset: self.scroll_offset,
                tail_wanted: self.tail_wanted,
                status: self.status,
                worker_busy: false,
                ..before
            })
            &&& self.source.bytes() == before.source.bytes()
            &&& self.source.scan_to() == before.source.scan_to()
            &&& self.source is Mmap
            &&& self.source.scan_from() == if chunk@.line_offsets.len() == 0 {
                before.source.scan_to()
            } else {
                next_offset
            }
            &&& self.source.index_view() == if chunk@.line_offsets.len() == 0 {
                before.source.index_view()
            } else {
                before.source.index_view().merged(chunk@)
            }
            &&& self.view_settled(before, ended)
            &&& self.status == if before.follow_mode && !ended {
                None
            } else {
                before.status
            }
        } else {
            self == (Engine { worker_busy: false, ..before })
        }
    }

    /// Whether this is the state after read timestamps and levels have
    /// come back to `before`: they are in the index where it accepts them,
    /// and dropped where it does not.
    pub open spec fn took_parsed(
        self,
        before: Engine,
        start_index: usize,
        timestamps: Seq<Option<i64>>,
        levels: Seq<LogLevel>,
        is_entry_start: Seq<bool>,
    ) -> bool {
        &&& self == (Engine { source: self.source, worker_busy: false, ..before })
        &&& self.source.bytes() == before.source.bytes()
        &&& self.source.scan_to() == before.source.scan_to()
        &&& self.source.scan_from() == before.source.scan_from()
        &&& (self.source is Mmap) == (before.source is Mmap)
        &&& self.source.index_view() == if before.source.index_view().accepts(
            start_index as int,
            timestamps,
            levels,
            is_entry_start,
        ) {
            before.source.index_view().applied(timestamps, levels, is_entry_start)
        } else {
            before.source.index_view()
        }
    }

    /// Whether this is the state after a batch of a search has come back to
    /// `before`: dropped where it was asked for another search than the
    /// current one; else its lines are among the matches, and once the
    /// search is done the view is at the first match at or after its top
    /// line.
    pub open spec fn took_search(self, before: Engine, batch: Tagged) -> bool {
        if batch.generation != before.search_generation {
            self == (Engine { worker_busy: false, ..before })
        } else {
            exists|mid: Engine|
                {
                    &&& mid == (Engine { search: mid.search, worker_busy: false, ..before })
                    &&& mid.search.wf()
                    &&& mid.search == (SearchState {
                        matches: mid.search.matches,
                        search_cursor: mid.search.search_cursor,
                        searching: mid.search.searching,
                        ..before.search
                    })
                    &&& mid.search_track() == before.search_track().took(batch)
                    &&& self.search_noted(mid, batch.done)
                }
        }
    }

    /// Whether this is the state after a batch of a filter run has come
    /// back to `before`: dropped where it was asked for another run than
    /// the current one; else its lines are among those that pass, and it
    /// is noted how far the run has come.
    pub open spec fn took_filter(self, before: Engine, batch: Tagged) -> bool {
        if batch.generation != before.filter_generation {
            self == (Engine { worker_busy: false, ..before })
        } else {
            &&& self == (Engine {
                filtered_lines: self.filtered_lines,
                filter_cursor: self.filter_cursor,
                filtering: self.filtering,
                status: self.status,
                worker_busy: false,
                ..before
            })
            &&& self.filter_track() == before.filter_track().took(batch)
            &&& self.status == Some(self.filter_note(batch.done))
        }
    }

    /// Whether this is the state after `result` has come back from the
    /// background worker to `before`.
    pub open spec fn took(self, before: Engine, result: WorkResult) -> bool {
        match result {
            WorkResult::ScanChunk { chunk, next_offset } => self.took_scan(
                before,
                chunk,
                next_offset,
            ),
            WorkResult::DeferredParsed {
                start_index,
                timestamps,
                levels,
                is_entry_start,
                level_counts_delta,
                last_parsed_ts,
            } => self.took_parsed(before, start_index, timestamps@, levels@, is_entry_start@),
            WorkResult::SearchBatch { matches, cursor, done, generation } => self.took_search(
                before,
                Tagged { generation, matches: matches@, cursor, done },
            ),
            WorkResult::FilterBatch { matches, cursor, done, generation } => self.took_filter(
                before,
                Tagged { generation, matches: matches@, cursor, done },
            ),
        }
    }

    /// Takes in one result of the background worker, which is free again.
    /// What comes back for a search or filter run that has been replaced is
    /// dropped.
    pub fn apply_result(&mut self, result: WorkResult)
        requires
            old(self).wf(),
        ensures
            final(self).wf(),
            final(self).took(*old(self), result),
    {
        self.worker_busy = false;
        match result {
            WorkResult::ScanChunk { chunk, next_offset } => {
                if self.source.is_mmap() && chunk.is_consistent() {
                    let ghost before = *self;
                    let ended = self.source.merge_scan_chunk(chunk, next_offset);
                    self.settle_view();
                    if self.follow_mode && !ended {
                        self.status = None;
                    }
                }
            },
            WorkResult::DeferredParsed {
                start_index,
                timestamps,
                levels,
                is_entry_start,
                level_counts_delta,
                last_parsed_ts,
            } => {
                self.source.apply_deferred_batch(start_index, timestamps, levels, is_entry_start);
            },
            WorkResult::SearchBatch { matches, cursor, done, generation } => {
                if generation == self.search_generation {
                    let ghost batch = Tagged { generation, matches: matches@, cursor, done };
                    let ghost before = *self;
                    self.search.apply_batch(matches, cursor, done);
                    let ghost mid = *self;
                    self.note_search(done);
                    proof {
                        assert(mid.search_track() == before.search_track().took(batch));
                        assert(self.search_noted(mid, batch.done));
                    }
                }
            },
            WorkResult::FilterBatch { matches, cursor, done, generation } => {
                if generation == self.filter_generation {
                    let mut found = matches;
                    self.filtered_lines.append(&mut found);
                    self.filter_cursor = cursor;
                    if done {
                        self.filtering = false;
                    }
                    self.note_filter(done);
                }
            },
        }
    }

    /// Whether `after` is the state that the first `n` of some results
    /// lead to from `before`, taken in one after another.
    pub open spec fn took_each(before: Engine, results: Seq<WorkResult>, n: int, after: Engine) -> bool
        decreases n,
    {
        if n <= 0 {
            after == before
        } else {
            exists|mid: Engine|
                Engine::took_each(before, results, n - 1, mid) && mid.wf() && after.took(
                    mid,
                    results[n - 1],
                )
        }
    }

    /// Takes in what has come back from the background worker, one result
    /// after another. Returns whether anything had come back.
    pub fn poll_worker(&mut self, results: Vec<WorkResult>) -> (any: bool)
        requires
            old(self).wf(),
        ensures
            final(self).wf(),
            any == (results@.len() > 0),
            Engine::took_each(*old(self), results@, results@.len() as int, *final(self)),
    {
        let ghost all = results@;
        let ghost first = *self;
        let n = results.len();
        let any = n > 0;
        let mut rest = results;
        let mut taken: usize = 0;
        while rest.len() > 0
            invariant
                self.wf(),
                all.len() == n,
                taken + rest@.len() == all.len(),
                rest@ == all.subrange(taken as int, all.len() as int),
                Engine::took_each(first, all, taken as int, *self),
            decreases rest@.len(),
        {
            let ghost mid = *self;
            let result = rest.remove(0);
            proof {
                assert(result == all[taken as int]);
                assert(rest@ =~= all.subrange(taken + 1, all.len() as int));
            }
            self.apply_result(result);
            taken = taken + 1;
            proof {
                assert(Engine::took_each(first, all, taken - 1, mid) && mid.wf() && self.took(
                    mid,
                    all[taken - 1],
                ));
            }
        }
        any
    }

    /// Goes to the line with the given number, counted from 1, or to the
    /// last line where there are fewer. Returns the line that was gone to,
    /// counted from 0.
    pub fn go_to_line(&mut self, number: usize) -> (line: usize)
        ensures
            line == line_for_number(number, old(self).source.index_view().total_lines()),
            *final(self) == (Engine {
                scroll_offset: if line < old(self).max_scroll() {
                    line
                } else {
                    old(self).max_scroll() as usize
                },
                ..*old(self)
            }),
    {
        let total = self.total_lines();
        let wanted = if number > 0 {
            number - 1
        } else {
            0
        };
        let last = if total > 0 {
            total - 1
        } else {
            0
        };
        let line = if wanted < last {
            wanted
        } else {
            last
        };
        self.scroll_to(line);
        line
    }

    /// Goes to the first line whose timestamp is at least `target_ms`, or
    /// to the last line where every line is earlier, and returns that line.
    pub fn jump_to_timestamp(&mut self, target_ms: i64) -> (line: usize)
        ensures
            is_ascending(old(self).source.index_view().timestamps) ==> is_lower_bound(
                old(self).source.index_view().timestamps,
                target_ms,
                line as int,
            ),
            *final(self) == (Engine {
                scroll_offset: if line < old(self).max_scroll() {
                    line
                } else {
                    old(self).max_scroll() as usize
                },
                ..*old(self)
            }),
    {
        let line = self.binary_search_timestamp(target_ms);
        self.scroll_to(line);
        line
    }

    /// The line to go to for a time: the first line whose timestamp is at
    /// least `target_ms`, a line without a timestamp counting as earlier
    /// than any time; the last line where every line is earlier. Where the
    /// timestamps do not ascend, some line.
    pub fn binary_search_timestamp(&self, target_ms: i64) -> (line: usize)
        ensures
            line < self.source.index_view().timestamps.len()
                || self.source.index_view().timestamps.len() == 0 && line == 0,
            is_ascending(self.source.index_view().timestamps) ==> is_lower_bound(
                self.source.index_view().timestamps,
                target_ms,
                line as int,
            ),
    {
        lower_bound_line(self.source.index().timestamps().as_slice(), target_ms)
    }
}

/// The line, counted from 0, that a line number counted from 1 stands for,
/// in a file of `total` lines: the last line for a number that is too
/// great, the first for the number 0.
pub open spec fn line_for_number(number: usize, total: nat) -> int {
    let wanted = if number > 0 {
        number - 1
    } else {
        0
    };
    let last = if total > 0 {
        total - 1
    } else {
        0
    };
    if wanted < last {
        wanted
    } else {
        last
    }
}

/// What a timestamp counts for in the order of the lines: a line without
/// one counts as earlier than any time.
pub open spec fn stamp_key(stamp: Option<i64>) -> int {
    match stamp {
        Some(ms) => ms as int,
        None => i64::MIN as int,
    }
}

/// Whether the timestamps never go back from one line to the next.
pub open spec fn is_ascending(timestamps: Seq<Option<i64>>) -> bool {
    forall|i: int, j: int|
        0 <= i <= j < timestamps.len() ==> stamp_key(timestamps[i]) <= stamp_key(timestamps[j])
}

/// Whether `line` is the smallest line whose timestamp is at least
/// `target_ms`, or the last line where every timestamp is smaller; line 0
/// where there are no lines.
pub open spec fn is_lower_bound(timestamps: Seq<Option<i64>>, target_ms: i64, line: int) -> bool {
    if timestamps.len() == 0 {
        line == 0
    } else if exists|k: int| 0 <= k < timestamps.len() && stamp_key(timestamps[k]) >= target_ms {
        &&& 0 <= line < timestamps.len()
        &&& stamp_key(timestamps[line]) >= target_ms
        &&& forall|k: int| 0 <= k < line ==> stamp_key(timestamps[k]) < target_ms
    } else {
        line == timestamps.len() - 1
    }
}

/// The timestamp's place in the order of the lines.
fn key_of(stamp: Option<i64>) -> (key: i64)
    ensures
        key == stamp_key(stamp),
{
    match stamp {
        Some(ms) => ms,
        None => i64::MIN,
    }
}

/// Finds, by halving, the first line whose timestamp is at least
/// `target_ms`; the last line where every line is earlier.
pub fn lower_bound_line(timestamps: &[Option<i64>], target_ms: i64) -> (line: usize)
    ensures
        line < timestamps@.len() || timestamps@.len() == 0 && line == 0,
        is_ascending(timestamps@) ==> is_lower_bound(timestamps@, target_ms, line as int),
{
    let n = timestamps.len();
    let mut lo: usize = 0;
    let mut hi: usize = n;
    while lo < hi
        invariant
            lo <= hi <= n,
            n == timestamps@.len(),
            is_ascending(timestamps@) ==> forall|k: int|
                0 <= k < lo ==> stamp_key(timestamps@[k]) < target_ms,
            is_ascending(timestamps@) ==> forall|k: int|
                hi <= k < n ==> stamp_key(timestamps@[k]) >= target_ms,
        decreases hi - lo,
    {
        let mid = lo + (hi - lo) / 2;
        if key_of(timestamps[mid]) < target_ms {
            lo = mid + 1;
        } else {
            hi = mid;
        }
    }
    if n == 0 {
        0
    } else if lo < n {
        lo
    } else {
        n - 1
    }
}

/// A search that begins starts afresh. Where the pattern is accepted, the
/// search has the number after that of the search before it, has found
/// nothing, has no current match, stands before the first line, covers
/// all lines of the index, and is under way; and a batch that still comes
/// back for the search before it changes nothing.
pub proof fn lemma_search_starts_afresh(
    before: Engine,
    after: Engine,
    pattern: Seq<char>,
    compiled: Seq<char>,
    stale: Tagged,
)
    requires
        after.search_begun_from(before, pattern, compiled),
        !SearchState::is_refused(pattern, compiled),
        stale.generation == before.search_generation,
    ensures
        after.search_generation == next_generation(before.search_generation),
        after.search.matches@ == Seq::<usize>::empty(),
        after.search.current_match is None,
        after.search.search_cursor == 0,
        after.search.search_total == before.source.index_view().total_lines(),
        after.search.searching,
        after.search_track().took(stale) == after.search_track(),
{
    assert(after.search_track() == before.search_track().begun());
    assert(after.search.matches@ =~= Seq::<usize>::empty());
}

/// A filter run that begins starts afresh. Where setting a filter has
/// begun a run, the run has the number after that of the run before it,
/// has let no line through yet, stands before the first line, covers all
/// lines of the index, and holds conditions; and a batch that still comes
/// back for the run before it changes nothing: no line of an earlier run
/// is among the lines of the new one.
pub proof fn lemma_filter_starts_afresh(before: Engine, after: Engine, pattern: Seq<char>, stale: Tagged)
    requires
        after.filter_set_from(before, pattern),
        after.filtering,
        after.filter_generation != before.filter_generation,
        stale.generation == before.filter_generation,
    ensures
        after.filter_generation == next_generation(before.filter_generation),
        after.filtered_lines@ == Seq::<usize>::empty(),
        after.filter_cursor == 0,
        after.filter_total == before.source.index_view().total_lines(),
        after.filter_conditions@.len() > 0,
        after.filter_track().took(stale) == after.filter_track(),
{
    let res = choose|res: Result<crate::filter::FilterPlan, String>|
        {
            &&& is_parsed(pattern, res)
            &&& match res {
                Err(_) => {
                    &&& after.filter_track() == before.filter_track()
                    &&& after.filter_conditions == before.filter_conditions
                    &&& after.scroll_offset == before.scroll_offset
                    &&& after.status matches Some(StatusNote::InvalidPattern { .. })
                },
                Ok(plan) => if plan.conditions@.len() == 0 {
                    after.is_cleared_from(before)
                } else {
                    &&& after.filter_conditions == plan.conditions
                    &&& after.filter_highlight == plan.highlight
                    &&& after.filter_track() == before.filter_track().begun()
                    &&& after.filter_total == before.source.index_view().total_lines()
                    &&& after.scroll_offset == 0
                    &&& after.status == Some(StatusNote::Filtering)
                    &&& after.keeps_offsets_of(before)
                    &&& !before.has_worker ==> after.filter_cancel == before.filter_cancel
                },
            }
        };
    assert(after.filter_track() == before.filter_track().begun());
    assert(after.filtered_lines@ =~= Seq::<usize>::empty());
}

/// The lines of the first `upto` lines of the index that meet every
/// condition of the filter.
pub open spec fn filter_passes(engine: Engine, upto: int) -> Seq<usize> {
    passing_lines_in(
        pairs_of(engine.filter_conditions@),
        engine.source.bytes(),
        engine.source.index_view().line_offsets,
        engine.source.bytes().len() as int,
        0,
        upto,
    )
}

/// A filter run that is done at once, step by step, lets through exactly
/// the lines that meet every condition. Of states that follow one another
/// by steps of the run, the first one at the start of a run, each holds
/// the lines up to where the run stands that meet every condition of the
/// filter; and once the run has ended these are such lines of all the
/// lines that the run covers, in ascending order, whatever the number of
/// steps.
pub proof fn lemma_filter_run_is_whole(states: Seq<Engine>, n: int)
    requires
        0 <= n < states.len(),
        states[0].filtering,
        states[0].filter_cursor == 0,
        states[0].filtered_lines@.len() == 0,
        forall|k: int| 0 <= k < n ==> (#[trigger] states[k + 1]).filter_ticked(states[k]),
    ensures
        states[n].filter_conditions == states[0].filter_conditions,
        states[n].source == states[0].source,
        states[n].filter_total == states[0].filter_total,
        states[n].filtered_lines@ == filter_passes(states[0], states[n].filter_cursor as int),
        n > 0 ==> states[n].filter_cursor <= states[0].filter_total && states[n].filtering == (
        states[n].filter_cursor < states[0].filter_total),
        !states[n].filtering ==> states[n].filtered_lines@ == filter_passes(
            states[0],
            states[0].filter_total as int,
        ),
    decreases n,
{
    let first = states[0];
    let pass = |i: int|
        line_passes(
            pairs_of(first.filter_conditions@),
            first.source.bytes(),
            first.source.index_view().line_offsets,
            first.source.bytes().len() as int,
            i,
        );
    if n == 0 {
        assert(first.filtered_lines@ =~= filter_passes(first, 0));
    } else {
        lemma_filter_run_is_whole(states, n - 1);
        let k = n - 1;
        let before = states[k];
        let after = states[k + 1];
        assert(after.filter_ticked(before));
        if before.filtering {
            let from = before.filter_cursor as int;
            let to = after.filter_cursor as int;
            lemma_passing_split(pass, 0, from, to);
            assert(filter_passes(first, to) == passing(pass, 0, to));
            assert(filter_passes(first, from) == passing(pass, 0, from));
            assert(after.filtered_lines@ == passing(pass, 0, from) + passing(pass, from, to));
        }
    }
}

} // verus!
