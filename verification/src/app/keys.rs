//! What the keys and the mouse mean: which step of the viewer a key or a
//! mouse event asks for, given what is shown, and the steps that a key
//! alone asks for.

use super::select::{joined, texts_of_lines};
use super::typing::is_command_line;
use super::{App, InputMode, Settings};
use crate::chars::chars_of;
use crate::engine::{next_generation, Engine, StatusNote};
use crate::text::LF;
use vstd::prelude::*;
use vstd::string::*;
use vstd::utf8::*;

verus! {

/// A key of the keyboard.
#[derive(Debug, Clone, Copy, PartialEq, Eq, Structural)]
pub enum Key {
    Up,
    Down,
    Left,
    Right,
    PageUp,
    PageDown,
    Home,
    End,
    Enter,
    Esc,
    Backspace,
    Delete,
    Tab,
    Char(char),
    Other,
}

/// The keys that are held down with another key or with a mouse button.
#[derive(Debug, Clone, Copy, PartialEq, Eq, Structural)]
pub struct Modifiers {
    pub control: bool,
    pub shift: bool,
    pub alt: bool,
    pub logo: bool,
}

/// What a key asks for.
#[derive(Debug, Clone, Copy, PartialEq, Eq, Structural)]
pub enum KeyAction {
    Nothing,
    Copy,
    ConfigUp,
    ConfigDown,
    ConfigToggle,
    ConfigDecrease,
    ConfigClose,
    NotificationUp,
    NotificationDown,
    NotificationDelete,
    NotificationsClose,
    BookmarkUp,
    BookmarkDown,
    BookmarkSelect,
    BookmarkDelete,
    BookmarksClose,
    ScrollUp(usize),
    ScrollDown(usize),
    ScrollToTop,
    JumpToBottom,
    PrevMatch,
    NextMatch,
    Escape,
    Type(char),
    CancelInput,
    AcceptSuggestion,
    SubmitInput,
    Backspace,
    Delete,
    Left,
    Right,
    Home,
    End,
    SuggestionNext,
    SuggestionPrev,
}

/// What the mouse does.
#[derive(Debug, Clone, Copy, PartialEq, Eq, Structural)]
pub enum MouseKind {
    ScrollUp,
    ScrollDown,
    LeftDown,
    LeftDrag,
    LeftUp,
    Other,
}

/// What a mouse event asks for.
#[derive(Debug, Clone, Copy, PartialEq, Eq, Structural)]
pub enum MouseAction {
    Nothing,
    ScrollUp(usize),
    ScrollDown(usize),
    ToggleLine,
    ExtendLines,
    SelectEntry,
    SelectLine,
    Drag,
    Release,
}

/// What fills the screen.
#[derive(Debug, Clone, Copy, PartialEq, Eq, Structural)]
pub enum Panel {
    Log,
    Help,
    Config,
    Bookmarks,
    Notifications,
}

/// Two clicks on one row make a double click where less than this many
/// milliseconds lie between them.
pub const DOUBLE_CLICK_MS: u64 = 400;

/// What a key asks for while the settings are shown.
pub open spec fn config_action(key: Key) -> KeyAction {
    match key {
        Key::Up => KeyAction::ConfigUp,
        Key::Down => KeyAction::ConfigDown,
        Key::Enter => KeyAction::ConfigToggle,
        Key::Right => KeyAction::ConfigToggle,
        Key::Left => KeyAction::ConfigDecrease,
        Key::Esc => KeyAction::ConfigClose,
        _ => KeyAction::Nothing,
    }
}

/// Whether a key asks to delete the entry that a panel's cursor is on.
pub open spec fn is_delete_key(key: Key) -> bool {
    key == Key::Char('d') || key == Key::Delete || key == Key::Backspace
}

/// What a key asks for while the notifications are listed.
pub open spec fn notifications_action(key: Key) -> KeyAction {
    if is_delete_key(key) {
        KeyAction::NotificationDelete
    } else {
        match key {
            Key::Up => KeyAction::NotificationUp,
            Key::Down => KeyAction::NotificationDown,
            Key::Esc => KeyAction::NotificationsClose,
            _ => KeyAction::Nothing,
        }
    }
}

/// What a key asks for while the bookmarks are listed.
pub open spec fn bookmarks_action(key: Key) -> KeyAction {
    if is_delete_key(key) {
        KeyAction::BookmarkDelete
    } else {
        match key {
            Key::Up => KeyAction::BookmarkUp,
            Key::Down => KeyAction::BookmarkDown,
            Key::Enter => KeyAction::BookmarkSelect,
            Key::Esc => KeyAction::BookmarksClose,
            _ => KeyAction::Nothing,
        }
    }
}

/// Finds what a key asks for while the settings are shown.
pub fn config_key(key: Key) -> (action: KeyAction)
    ensures
        action == config_action(key),
{
    match key {
        Key::Up => KeyAction::ConfigUp,
        Key::Down => KeyAction::ConfigDown,
        Key::Enter => KeyAction::ConfigToggle,
        Key::Right => KeyAction::ConfigToggle,
        Key::Left => KeyAction::ConfigDecrease,
        Key::Esc => KeyAction::ConfigClose,
        _ => KeyAction::Nothing,
    }
}

/// Finds what a key asks for while the notifications are listed.
pub fn notifications_key(key: Key) -> (action: KeyAction)
    ensures
        action == notifications_action(key),
{
    match key {
        Key::Up => KeyAction::NotificationUp,
        Key::Down => KeyAction::NotificationDown,
        Key::Char(c) => if c == 'd' {
            KeyAction::NotificationDelete
        } else {
            KeyAction::Nothing
        },
        Key::Delete => KeyAction::NotificationDelete,
        Key::Backspace => KeyAction::NotificationDelete,
        Key::Esc => KeyAction::NotificationsClose,
        _ => KeyAction::Nothing,
    }
}

/// Finds what a key asks for while the bookmarks are listed.
pub fn bookmarks_key(key: Key) -> (action: KeyAction)
    ensures
        action == bookmarks_action(key),
{
    match key {
        Key::Up => KeyAction::BookmarkUp,
        Key::Down => KeyAction::BookmarkDown,
        Key::Enter => KeyAction::BookmarkSelect,
        Key::Char(c) => if c == 'd' {
            KeyAction::BookmarkDelete
        } else {
            KeyAction::Nothing
        },
        Key::Delete => KeyAction::BookmarkDelete,
        Key::Backspace => KeyAction::BookmarkDelete,
        Key::Esc => KeyAction::BookmarksClose,
        _ => KeyAction::Nothing,
    }
}

/// Whether a click on `row`, `elapsed_ms` milliseconds after the last
/// click, is the second click of a double click: the last click was on
/// the same row, a short while ago.
pub open spec fn is_second_click(last_row: Option<u16>, elapsed_ms: u64, row: u16) -> bool {
    last_row == Some(row) && elapsed_ms < DOUBLE_CLICK_MS
}

/// Whether a click is the second click of a double click.
pub fn is_double_click(last_row: Option<u16>, elapsed_ms: u64, row: u16) -> (double: bool)
    ensures
        double == is_second_click(last_row, elapsed_ms, row),
{
    match last_row {
        Some(r) => r == row && elapsed_ms < DOUBLE_CLICK_MS,
        None => false,
    }
}

/// How many of the first `n` bytes are line feeds.
pub open spec fn line_feeds(bytes: Seq<u8>, n: int) -> nat
    decreases n,
{
    if n <= 0 {
        0
    } else {
        line_feeds(bytes, n - 1) + if bytes[n - 1] == LF {
            1nat
        } else {
            0nat
        }
    }
}

/// No more of the first `n` bytes are line feeds than there are bytes.
pub proof fn lemma_line_feeds_bound(bytes: Seq<u8>, n: int)
    requires
        0 <= n,
    ensures
        line_feeds(bytes, n) <= n,
    decreases n,
{
    if n > 0 {
        lemma_line_feeds_bound(bytes, n - 1);
    }
}

/// How many lines a text has: one for each line feed, and one for what
/// follows the last of them, where anything does.
pub open spec fn line_count(bytes: Seq<u8>) -> nat {
    line_feeds(bytes, bytes.len() as int) + if bytes.len() > 0 && bytes.last() != LF {
        1nat
    } else {
        0nat
    }
}

/// Counts the lines of a text.
pub fn count_lines(text: &str) -> (count: usize)
    ensures
        count == line_count(text.spec_bytes()),
{
    let bytes = text.as_bytes();
    let mut count: usize = 0;
    let mut i: usize = 0;
    while i < bytes.len()
        invariant
            i <= bytes@.len(),
            count == line_feeds(bytes@, i as int),
            count <= i,
        decreases bytes@.len() - i,
    {
        if bytes[i] == LF {
            count = count + 1;
        }
        i = i + 1;
    }
    if bytes.len() > 0 && bytes[bytes.len() - 1] != LF {
        proof {
            lemma_line_feeds_bound(bytes@, bytes@.len() - 1);
        }
        count + 1
    } else {
        count
    }
}

impl App {
    /// What fills the screen: the help before the settings, those before
    /// the notifications, those before the bookmarks, else the log.
    pub open spec fn panel_shown(self) -> Panel {
        if self.show_help {
            Panel::Help
        } else if self.settings.show {
            Panel::Config
        } else if self.notifications.show {
            Panel::Notifications
        } else if self.bookmarks.show {
            Panel::Bookmarks
        } else {
            Panel::Log
        }
    }

    /// Finds what fills the screen.
    pub fn panel(&self) -> (shown: Panel)
        ensures
            shown == self.panel_shown(),
    {
        if self.show_help {
            Panel::Help
        } else if self.settings.show {
            Panel::Config
        } else if self.notifications.show {
            Panel::Notifications
        } else if self.bookmarks.show {
            Panel::Bookmarks
        } else {
            Panel::Log
        }
    }

    /// Whether commands are suggested for the input line.
    pub open spec fn suggests(self) -> bool {
        is_command_line(self.input.text@) && self.suggest.commands@.len() > 0
    }

    /// Whether commands are suggested for the input line.
    pub fn suggestions_open(&self) -> (open: bool)
        ensures
            open == self.suggests(),
    {
        let chars = chars_of(self.input.text.as_str());
        chars.len() > 0 && chars[0] == '/' && self.suggest.commands.len() > 0
    }

    /// What a key asks for while nothing is being typed.
    pub open spec fn idle_action(self, key: Key, mods: Modifiers) -> KeyAction {
        match key {
            Key::Up => KeyAction::ScrollUp(1),
            Key::Down => KeyAction::ScrollDown(1),
            Key::PageUp => KeyAction::ScrollUp(self.engine.viewport_height),
            Key::PageDown => KeyAction::ScrollDown(self.engine.viewport_height),
            Key::Home => KeyAction::ScrollToTop,
            Key::End => KeyAction::JumpToBottom,
            Key::Enter => if mods.shift {
                KeyAction::PrevMatch
            } else if self.engine.search.matches@.len() > 0 {
                KeyAction::NextMatch
            } else {
                KeyAction::Nothing
            },
            Key::Esc => KeyAction::Escape,
            Key::Char(c) => KeyAction::Type(c),
            _ => KeyAction::Nothing,
        }
    }

    /// What a key asks for while the input line is being typed in.
    pub open spec fn typing_action(self, key: Key) -> KeyAction {
        match key {
            Key::Esc => KeyAction::CancelInput,
            Key::Enter => if self.suggests() && self.suggest.index is Some {
                KeyAction::AcceptSuggestion
            } else {
                KeyAction::SubmitInput
            },
            Key::Backspace => KeyAction::Backspace,
            Key::Delete => KeyAction::Delete,
            Key::Left => KeyAction::Left,
            Key::Right => KeyAction::Right,
            Key::Home => KeyAction::Home,
            Key::End => KeyAction::End,
            Key::Tab => if self.suggests() {
                KeyAction::SuggestionNext
            } else {
                KeyAction::Nothing
            },
            Key::Up => if self.suggests() {
                KeyAction::SuggestionPrev
            } else {
                KeyAction::ScrollUp(1)
            },
            Key::Down => if self.suggests() {
                KeyAction::SuggestionNext
            } else {
                KeyAction::ScrollDown(1)
            },
            Key::PageUp => KeyAction::ScrollUp(self.engine.viewport_height),
            Key::PageDown => KeyAction::ScrollDown(self.engine.viewport_height),
            Key::Char(c) => KeyAction::Type(c),
            Key::Other => KeyAction::Nothing,
        }
    }

    /// What a key asks for. With the control key or the logo key held
    /// down, `c` asks to copy and no other key asks for anything; else
    /// the key goes to the settings where they are shown, to the
    /// notifications, to the bookmarks, or to the log and its input line.
    pub open spec fn action_for(self, key: Key, mods: Modifiers) -> KeyAction {
        if mods.control || mods.logo {
            if key == Key::Char('c') {
                KeyAction::Copy
            } else {
                KeyAction::Nothing
            }
        } else if self.settings.show {
            config_action(key)
        } else if self.notifications.show {
            notifications_action(key)
        } else if self.bookmarks.show {
            bookmarks_action(key)
        } else if self.input.mode == InputMode::Idle {
            self.idle_action(key, mods)
        } else {
            self.typing_action(key)
        }
    }

    /// Finds what a key asks for while nothing is being typed.
    pub fn idle_key(&self, key: Key, mods: Modifiers) -> (action: KeyAction)
        ensures
            action == self.idle_action(key, mods),
    {
        match key {
            Key::Up => KeyAction::ScrollUp(1),
            Key::Down => KeyAction::ScrollDown(1),
            Key::PageUp => KeyAction::ScrollUp(self.engine.viewport_height),
            Key::PageDown => KeyAction::ScrollDown(self.engine.viewport_height),
            Key::Home => KeyAction::ScrollToTop,
            Key::End => KeyAction::JumpToBottom,
            Key::Enter => if mods.shift {
                KeyAction::PrevMatch
            } else if self.engine.search.match_count() > 0 {
                KeyAction::NextMatch
            } else {
                KeyAction::Nothing
            },
            Key::Esc => KeyAction::Escape,
            Key::Char(c) => KeyAction::Type(c),
            _ => KeyAction::Nothing,
        }
    }

    /// Finds what a key asks for while the input line is being typed in.
    pub fn typing_key(&self, key: Key) -> (action: KeyAction)
        ensures
            action == self.typing_action(key),
    {
        let open = self.suggestions_open();
        match key {
            Key::Esc => KeyAction::CancelInput,
            Key::Enter => if open && self.suggest.index.is_some() {
                KeyAction::AcceptSuggestion
            } else {
                KeyAction::SubmitInput
            },
            Key::Backspace => KeyAction::Backspace,
            Key::Delete => KeyAction::Delete,
            Key::Left => KeyAction::Left,
            Key::Right => KeyAction::Right,
            Key::Home => KeyAction::Home,
            Key::End => KeyAction::End,
            Key::Tab => if open {
                KeyAction::SuggestionNext
            } else {
                KeyAction::Nothing
            },
            Key::Up => if open {
                KeyAction::SuggestionPrev
            } else {
                KeyAction::ScrollUp(1)
            },
            Key::Down => if open {
                KeyAction::SuggestionNext
            } else {
                KeyAction::ScrollDown(1)
            },
            Key::PageUp => KeyAction::ScrollUp(self.engine.viewport_height),
            Key::PageDown => KeyAction::ScrollDown(self.engine.viewport_height),
            Key::Char(c) => KeyAction::Type(c),
            Key::Other => KeyAction::Nothing,
        }
    }

    /// Finds what a key asks for.
    pub fn key_action(&self, key: Key, mods: Modifiers) -> (action: KeyAction)
        ensures
            action == self.action_for(key, mods),
    {
        if mods.control || mods.logo {
            match key {
                Key::Char(c) => if c == 'c' {
                    KeyAction::Copy
                } else {
                    KeyAction::Nothing
                },
                _ => KeyAction::Nothing,
            }
        } else if self.settings.show {
            config_key(key)
        } else if self.notifications.show {
            notifications_key(key)
        } else if self.bookmarks.show {
            bookmarks_key(key)
        } else {
            match self.input.mode {
                InputMode::Idle => self.idle_key(key, mods),
                InputMode::Typing => self.typing_key(key),
            }
        }
    }

    /// What a mouse event asks for. The wheel scrolls by the speed that is
    /// set, unless the end of the file is followed. The left button
    /// selects: with the alt key one line more or less, with the shift
    /// key the lines up to the one clicked, the whole entry on a double
    /// click, else the line.
    pub open spec fn mouse_action_for(self, kind: MouseKind, mods: Modifiers, double: bool) -> MouseAction {
        match kind {
            MouseKind::ScrollUp => if self.engine.follow_mode {
                MouseAction::Nothing
            } else {
                MouseAction::ScrollUp(self.settings.config.scroll_speed)
            },
            MouseKind::ScrollDown => if self.engine.follow_mode {
                MouseAction::Nothing
            } else {
                MouseAction::ScrollDown(self.settings.config.scroll_speed)
            },
            MouseKind::LeftDown => if mods.alt {
                MouseAction::ToggleLine
            } else if mods.shift {
                MouseAction::ExtendLines
            } else if double {
                MouseAction::SelectEntry
            } else {
                MouseAction::SelectLine
            },
            MouseKind::LeftDrag => MouseAction::Drag,
            MouseKind::LeftUp => MouseAction::Release,
            MouseKind::Other => MouseAction::Nothing,
        }
    }

    /// Finds what a mouse event asks for.
    pub fn mouse_action(&self, kind: MouseKind, mods: Modifiers, double: bool) -> (action: MouseAction)
        ensures
            action == self.mouse_action_for(kind, mods, double),
    {
        match kind {
            MouseKind::ScrollUp => if self.engine.follow_mode {
                MouseAction::Nothing
            } else {
                MouseAction::ScrollUp(self.settings.config.scroll_speed)
            },
            MouseKind::ScrollDown => if self.engine.follow_mode {
                MouseAction::Nothing
            } else {
                MouseAction::ScrollDown(self.settings.config.scroll_speed)
            },
            MouseKind::LeftDown => if mods.alt {
                MouseAction::ToggleLine
            } else if mods.shift {
                MouseAction::ExtendLines
            } else if double {
                MouseAction::SelectEntry
            } else {
                MouseAction::SelectLine
            },
            MouseKind::LeftDrag => MouseAction::Drag,
            MouseKind::LeftUp => MouseAction::Release,
            MouseKind::Other => MouseAction::Nothing,
        }
    }

    /// Whether this is the state after the escape key was pressed in
    /// `before` while nothing was being typed. The key takes back one
    /// thing, the first that there is of: the help, the tail view, the
    /// selection, the search, the filter, following the file's end.
    pub open spec fn escaped_from(self, before: App) -> bool {
        if before.show_help {
            self == (App { show_help: false, ..before })
        } else if before.engine.tail_view is Some {
            self == (App {
                engine: Engine {
                    tail_view: None,
                    scroll_offset: before.engine.max_scroll() as usize,
                    ..before.engine
                },
                ..before
            })
        } else if before.selection.text is Some || before.selection.lines@.len() > 0 {
            &&& self == (App { selection: self.selection, ..before })
            &&& self.selection.lines@.len() == 0
            &&& self.selection.anchor is None
            &&& self.selection.text is None
            &&& self.selection.drag_origin is None
        } else if before.engine.search.pattern@.len() > 0 {
            &&& self == (App {
                engine: Engine {
                    search: self.engine.search,
                    search_generation: next_generation(before.engine.search_generation),
                    ..before.engine
                },
                ..before
            })
            &&& self.engine.search.pattern@.len() == 0
            &&& self.engine.search.regex is None
            &&& self.engine.search.error is None
            &&& self.engine.search.matches@.len() == 0
            &&& self.engine.search.current_match is None
            &&& !self.engine.search.searching
        } else if before.engine.is_filtered() || before.engine.filtering {
            &&& self.same_but_engine(before)
            &&& self.engine.filter_dropped_from(before.engine)
        } else if before.engine.follow_mode {
            self == (App {
                engine: Engine {
                    follow_mode: false,
                    status: Some(StatusNote::FollowOff),
                    ..before.engine
                },
                ..before
            })
        } else {
            self == before
        }
    }

    /// Takes back one thing, as the escape key does while nothing is
    /// being typed.
    pub fn escape(&mut self)
        ensures
            final(self).escaped_from(*old(self)),
            old(self).wf() ==> final(self).wf(),
    {
        if self.show_help {
            self.show_help = false;
        } else if self.engine.in_tail_mode() {
            self.exit_tail_mode();
        } else if self.selection.text.is_some() || !self.selection.lines.is_empty() {
            self.clear_selection();
        } else if self.has_active_search() {
            self.engine.cancel_search();
        } else if self.engine.filter_conditions.len() > 0 || self.engine.filtering {
            self.engine.drop_filter();
        } else if self.engine.follow_mode {
            self.engine.follow_mode = false;
            self.engine.status = Some(StatusNote::FollowOff);
        }
    }

    /// The text that is selected: the stretch of text, where one is
    /// selected, else the text of the selected lines.
    pub open spec fn chosen_text(self) -> Option<Seq<char>> {
        match self.selection.text {
            Some((start, end)) => self.text_between(start, end),
            None => if self.selection.lines@.len() > 0 {
                Some(
                    joined(
                        texts_of_lines(
                            self.engine.source,
                            self.selection.lines@,
                            self.selection.lines@.len() as int,
                        ),
                    ),
                )
            } else {
                None
            },
        }
    }

    /// What is said of a text that was copied: the number of its lines,
    /// or of its bytes where a stretch of one line was selected.
    pub open spec fn copied_note(self, text: Seq<char>) -> StatusNote {
        if self.selection.text is Some {
            if line_count(encode_utf8(text)) <= 1 {
                StatusNote::CopiedChars { count: encode_utf8(text).len() as usize }
            } else {
                StatusNote::CopiedLines { count: line_count(encode_utf8(text)) as usize }
            }
        } else {
            StatusNote::CopiedLines { count: self.selection.lines@.len() as usize }
        }
    }

    /// Whether this is the state after the selected text `copied` was
    /// taken from `before`: the selection is forgotten, and a note says
    /// how much was copied; nothing has changed where nothing was
    /// selected.
    pub open spec fn copied_from(self, before: App, copied: Option<String>) -> bool {
        match copied {
            Some(text) => {
                &&& before.chosen_text() == Some(text@)
                &&& self == (App {
                    selection: self.selection,
                    engine: Engine {
                        status: Some(before.copied_note(text@)),
                        ..before.engine
                    },
                    ..before
                })
                &&& self.selection.lines@.len() == 0
                &&& self.selection.anchor is None
                &&& self.selection.text is None
                &&& self.selection.drag_origin is None
            },
            None => before.chosen_text() is None && self == before,
        }
    }

    /// Takes the selected text to be copied: hands it out, says how much
    /// it is, and forgets the selection.
    pub fn take_copy(&mut self) -> (copied: Option<String>)
        ensures
            final(self).copied_from(*old(self), copied),
    {
        match self.selected_text() {
            Some(text) => {
                let note = if self.selection.text.is_some() {
                    let lines = count_lines(text.as_str());
                    if lines <= 1 {
                        StatusNote::CopiedChars { count: text.as_str().as_bytes().len() }
                    } else {
                        StatusNote::CopiedLines { count: lines }
                    }
                } else {
                    StatusNote::CopiedLines { count: self.selection.lines.len() }
                };
                self.engine.status = Some(note);
                self.clear_selection();
                Some(text)
            },
            None => None,
        }
    }

    /// Closes the settings, which have been saved.
    pub fn close_config(&mut self)
        ensures
            *final(self) == (App {
                settings: Settings { show: false, ..old(self).settings },
                engine: Engine { status: Some(StatusNote::SettingsSaved), ..old(self).engine },
                ..*old(self)
            }),
    {
        self.settings.show = false;
        self.engine.status = Some(StatusNote::SettingsSaved);
    }
}

} // verus!
