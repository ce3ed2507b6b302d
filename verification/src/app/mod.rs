//! The viewer's state: the engine, and around it what the user is doing:
//! the input line, the selection, the bookmarks, the panels.

use crate::config::Config;
use crate::engine::Engine;
use crate::log::reader::LogSource;
use crate::selection::LineSet;
use crate::worker::{WorkRequest, WorkResult};
use regex::Regex;
use vstd::prelude::*;

pub mod commands;
pub mod keys;
pub mod layout;
pub mod panels;
pub mod select;
pub mod typing;

verus! {

/// Whether keys are taken for the view or for the input line.
#[derive(Debug, Clone, Copy, PartialEq, Eq, Structural)]
pub enum InputMode {
    Idle,
    Typing,
}

/// A place in the text of the file: a line and a character in it.
#[derive(Debug, Clone, Copy, PartialEq, Eq, Structural)]
pub struct TextPos {
    pub line: usize,
    pub col: usize,
}

/// What is watched for in the lines that a file grows by.
pub struct NotifyEntry {
    pub pattern: String,
    pub regex: Regex,
}

/// A command that can be typed behind a slash, as the suggestions show it.
#[derive(Debug, Clone, Copy)]
pub struct SlashCommand {
    pub name: &'static str,
    pub description: &'static str,
    pub has_arg: bool,
}

/// How many commands the suggestions know.
pub const SLASH_COMMAND_COUNT: usize = 17;

/// The most suggestions that are shown.
pub const SUGGESTIONS_SHOWN: usize = 10;

/// The most entries that the history of the input line keeps.
pub const HISTORY_LIMIT: usize = 100;

/// How many characters of a line make up the label of a bookmark without
/// a name.
pub const LABEL_PREVIEW: usize = 30;

/// The input line: its text, the cursor as a place in the text's bytes,
/// and what has been entered before.
pub struct InputLine {
    pub text: String,
    pub cursor: usize,
    pub mode: InputMode,
    /// The expression that marks, while it is typed, what the input would
    /// search for.
    pub live_regex: Option<Regex>,
    pub history: Vec<String>,
    pub history_index: Option<usize>,
}

/// The commands that are suggested for what has been typed, by their
/// places in the table of commands, and the one that is picked.
pub struct Suggestions {
    pub commands: Vec<usize>,
    pub index: Option<usize>,
}

/// What is selected: whole lines, or a stretch of text.
pub struct Selection {
    pub lines: LineSet,
    pub anchor: Option<usize>,
    /// The row and column of the terminal at which a drag began.
    pub drag_origin: Option<(u16, u16)>,
    pub text: Option<(TextPos, TextPos)>,
}

/// The bookmarks, each a line and a label, and the panel that lists them.
pub struct Bookmarks {
    pub list: Vec<(usize, String)>,
    pub show: bool,
    pub cursor: usize,
}

/// What is watched for, and the panel that lists it.
pub struct Notifications {
    pub entries: Vec<NotifyEntry>,
    pub show: bool,
    pub cursor: usize,
}

/// The settings, and the panel that changes them.
pub struct Settings {
    pub config: Config,
    pub show: bool,
    pub cursor: usize,
}

/// How a wrapped view is laid out: for each row, the place on view of the
/// line that it shows, and the character of the line that it starts with.
pub struct WrapLayout {
    pub on: bool,
    pub row_map: Vec<usize>,
    pub char_offsets: Vec<usize>,
}

/// The state of the viewer.
pub struct App {
    pub engine: Engine,
    pub filename: String,
    pub input: InputLine,
    pub suggest: Suggestions,
    pub selection: Selection,
    pub bookmarks: Bookmarks,
    pub notifications: Notifications,
    pub settings: Settings,
    pub wrap: WrapLayout,
    pub should_quit: bool,
    pub show_help: bool,
    pub show_delta: bool,
    pub semantic_color: bool,
}

impl App {
    /// Whether the engine keeps its invariants.
    pub open spec fn wf(self) -> bool {
        self.engine.wf()
    }

    /// The state of the viewer for a file that has just been opened.
    pub fn new(source: LogSource, filename: String, config: Config) -> (app: Self)
        requires
            source.wf(),
        ensures
            app.wf(),
            app.engine.source == source,
            app.engine.scroll_offset == 0,
            app.engine.has_worker == (source is Mmap),
            !app.engine.worker_busy,
            !app.engine.search.searching,
            !app.engine.filtering,
            app.engine.status is None,
            app.filename == filename,
            app.settings.config == config,
            !app.settings.show,
            app.wrap.on == config.wrap,
            app.semantic_color == config.semantic_color,
            app.input.text@.len() == 0,
            app.input.cursor == 0,
            app.input.mode == InputMode::Idle,
            app.input.history@.len() == 0,
            app.suggest.commands@.len() == 0,
            app.suggest.index is None,
            app.selection.lines@.len() == 0,
            app.selection.anchor is None,
            app.selection.text is None,
            app.bookmarks.list@.len() == 0,
            app.notifications.entries@.len() == 0,
            !app.should_quit,
            !app.show_help,
            !app.show_delta,
    {
        App {
            engine: Engine::new(source),
            filename,
            input: InputLine {
                text: String::new(),
                cursor: 0,
                mode: InputMode::Idle,
                live_regex: None,
                history: Vec::new(),
                history_index: None,
            },
            suggest: Suggestions { commands: Vec::new(), index: None },
            selection: Selection {
                lines: LineSet::new(),
                anchor: None,
                drag_origin: None,
                text: None,
            },
            bookmarks: Bookmarks { list: Vec::new(), show: false, cursor: 0 },
            notifications: Notifications { entries: Vec::new(), show: false, cursor: 0 },
            wrap: WrapLayout { on: config.wrap, row_map: Vec::new(), char_offsets: Vec::new() },
            semantic_color: config.semantic_color,
            settings: Settings { config, show: false, cursor: 0 },
            should_quit: false,
            show_help: false,
            show_delta: false,
        }
    }

    /// Whether everything but the engine is as in `before`.
    pub open spec fn same_but_engine(self, before: App) -> bool {
        self == (App { engine: self.engine, ..before })
    }

    /// How many lines the index holds.
    pub fn total_lines(&self) -> (total: usize)
        ensures
            total == self.engine.source.index_view().total_lines(),
    {
        self.engine.total_lines()
    }

    /// How many lines are on view: those that pass the filter where one is
    /// set, else all lines of the index.
    pub fn visible_count(&self) -> (count: usize)
        ensures
            count == self.engine.visible(),
    {
        self.engine.visible_count()
    }

    /// The line of the file that stands at place `visible_idx` of the lines
    /// on view; 0 where a filter is set and lets fewer lines through.
    pub fn actual_line(&self, visible_idx: usize) -> (line: usize)
        ensures
            line == self.engine.line_on_view(visible_idx),
    {
        self.engine.actual_line(visible_idx)
    }

    /// Takes in one tick: `grew` says whether the file has grown and its
    /// new lines have been indexed. While the view follows the file's end
    /// it scrolls there. Returns whether the view has to be drawn anew.
    pub fn tick(&mut self, grew: bool) -> (changed: bool)
        ensures
            changed == (grew || old(self).engine.follow_mode),
            final(self).same_but_engine(*old(self)),
            final(self).engine == (Engine {
                scroll_offset: if old(self).engine.follow_mode {
                    old(self).engine.max_scroll() as usize
                } else {
                    old(self).engine.scroll_offset
                },
                ..old(self).engine
            }),
    {
        self.engine.tick(grew)
    }

    /// Scrolls down by `lines`, not past the last line.
    pub fn scroll_down(&mut self, lines: usize)
        ensures
            final(self).same_but_engine(*old(self)),
            final(self).engine == (Engine {
                scroll_offset: if old(self).engine.scroll_offset + lines < old(self).engine.max_scroll() {
                    (old(self).engine.scroll_offset + lines) as usize
                } else {
                    old(self).engine.max_scroll() as usize
                },
                ..old(self).engine
            }),
    {
        self.engine.scroll_down(lines);
    }

    /// Scrolls up by `lines`, not past the first line, and ends following
    /// the file's end. In the tail view it leaves the tail view instead,
    /// for the end of the indexed lines.
    pub fn scroll_up(&mut self, lines: usize)
        ensures
            final(self).same_but_engine(*old(self)),
            final(self).engine.scrolled_up_from(old(self).engine, lines),
    {
        self.engine.scroll_up(lines);
    }

    /// Scrolls to `line`, or as far as the last line allows.
    pub fn scroll_to(&mut self, line: usize)
        ensures
            final(self).same_but_engine(*old(self)),
            final(self).engine == (Engine {
                scroll_offset: old(self).engine.scroll_target(line),
                ..old(self).engine
            }),
    {
        self.engine.scroll_to(line);
    }

    /// Scrolls to the first line.
    pub fn scroll_to_top(&mut self)
        ensures
            final(self).same_but_engine(*old(self)),
            final(self).engine == (Engine { scroll_offset: 0, ..old(self).engine }),
    {
        self.engine.scroll_to_top();
    }

    /// Scrolls so that the last line on view is the last line of the view.
    pub fn scroll_to_bottom(&mut self)
        ensures
            final(self).same_but_engine(*old(self)),
            final(self).engine == (Engine {
                scroll_offset: old(self).engine.max_scroll() as usize,
                ..old(self).engine
            }),
    {
        self.engine.scroll_to_bottom();
    }

    /// Goes to the end of the file. While the file is being scanned its end
    /// is not indexed yet: the tail view is asked for instead.
    pub fn jump_to_bottom(&mut self)
        ensures
            final(self).same_but_engine(*old(self)),
            final(self).engine.at_bottom_of(old(self).engine),
    {
        self.engine.jump_to_bottom();
    }

    /// Whether the tail view is shown.
    pub fn in_tail_mode(&self) -> (tail: bool)
        ensures
            tail == (self.engine.tail_view is Some),
    {
        self.engine.in_tail_mode()
    }

    /// Leaves the tail view for the end of the indexed lines.
    pub fn exit_tail_mode(&mut self)
        ensures
            final(self).same_but_engine(*old(self)),
            final(self).engine == (Engine {
                tail_view: None,
                scroll_offset: old(self).engine.max_scroll() as usize,
                ..old(self).engine
            }),
    {
        self.engine.exit_tail_mode();
    }

    /// Whether a search is under way.
    pub fn searching(&self) -> (under_way: bool)
        ensures
            under_way == self.engine.search.searching,
    {
        self.engine.searching()
    }

    /// Searches the next lines at once. Returns whether the search is
    /// still under way.
    pub fn search_tick(&mut self) -> (more: bool)
        requires
            old(self).wf(),
        ensures
            final(self).wf(),
            final(self).same_but_engine(*old(self)),
            more == final(self).engine.search.searching,
            final(self).engine.search_ticked(old(self).engine),
    {
        self.engine.search_tick()
    }

    /// Holds the next lines against the filter at once. Returns whether
    /// the run is still under way.
    pub fn filter_tick(&mut self) -> (more: bool)
        requires
            old(self).wf(),
        ensures
            final(self).wf(),
            final(self).same_but_engine(*old(self)),
            more == final(self).engine.filtering,
            final(self).engine.filter_ticked(old(self).engine),
    {
        self.engine.filter_tick()
    }

    /// Whether lines are left to scan.
    pub fn is_scanning(&self) -> (scanning: bool)
        ensures
            scanning == self.engine.source.is_scanning(),
    {
        self.engine.is_scanning()
    }

    /// Scans the next lines of the file at once.
    pub fn scan_tick(&mut self)
        requires
            old(self).wf(),
        ensures
            final(self).wf(),
            final(self).same_but_engine(*old(self)),
            final(self).engine.same_but_index(old(self).engine),
            final(self).engine.source.scanned_from(old(self).engine.source),
    {
        self.engine.scan_tick();
    }

    /// Reads the timestamps and levels of the next lines at once. Returns
    /// whether lines are left to read.
    pub fn parse_deferred_batch(&mut self) -> (more: bool)
        requires
            old(self).wf(),
        ensures
            final(self).wf(),
            final(self).same_but_engine(*old(self)),
            final(self).engine.same_but_index(old(self).engine),
            final(self).engine.source.parsed_from(
                old(self).engine.source,
                crate::engine::SYNC_BATCH_LINES,
            ),
            more == !final(self).engine.source.index_view().ready(),
    {
        self.engine.parse_deferred_batch()
    }

    /// Whether the timestamp and level of every line have been read.
    pub fn indexing_ready(&self) -> (ready: bool)
        ensures
            ready == self.engine.source.index_view().ready(),
    {
        self.engine.indexing_ready()
    }

    /// Takes in what has come back from the background worker, one result
    /// after another. Returns whether anything had come back.
    pub fn poll_worker(&mut self, results: Vec<WorkResult>) -> (any: bool)
        requires
            old(self).wf(),
        ensures
            final(self).wf(),
            final(self).same_but_engine(*old(self)),
            any == (results@.len() > 0),
            Engine::took_each(
                old(self).engine,
                results@,
                results@.len() as int,
                final(self).engine,
            ),
    {
        self.engine.poll_worker(results)
    }

    /// Takes up the next unit of work: the request for it is returned, to
    /// be handed to the background worker, or, without a worker, the step
    /// is done at once.
    pub fn submit_next_work(&mut self) -> (request: Option<WorkRequest>)
        requires
            old(self).wf(),
        ensures
            final(self).wf(),
            final(self).same_but_engine(*old(self)),
            final(self).engine.submitted_from(old(self).engine, request),
    {
        self.engine.submit_next_work()
    }

    /// Whether something is searched for.
    pub fn has_active_search(&self) -> (active: bool)
        ensures
            active == (self.engine.search.pattern@.len() > 0),
    {
        !self.engine.search.pattern.as_str().is_empty()
    }

    /// Goes to the match after the current one.
    pub fn next_match(&mut self)
        requires
            old(self).wf(),
        ensures
            final(self).wf(),
            final(self).same_but_engine(*old(self)),
            final(self).engine.stepped_match(old(self).engine, true),
    {
        self.engine.next_match();
    }

    /// Goes to the match before the current one.
    pub fn prev_match(&mut self)
        requires
            old(self).wf(),
        ensures
            final(self).wf(),
            final(self).same_but_engine(*old(self)),
            final(self).engine.stepped_match(old(self).engine, false),
    {
        self.engine.prev_match();
    }
}

} // verus!
