//! What the commands do.

use super::{App, Bookmarks, Notifications, NotifyEntry, Settings, WrapLayout};
use crate::chars::{chars_of, string_of};
use crate::command::{
    command_arg, command_name, kind_of, offset_of, parse_command, parse_time_offset, Command,
    CommandKind, OffsetError,
};
use crate::datetime::{datetime_millis, parse_datetime_millis, parse_time_on_day, time_on_day};
use crate::engine::{is_ascending, is_lower_bound, Engine, StatusNote};
use crate::numbers::{decimal_digits, decimal_of, decimal_text, parse_decimal};
use crate::pattern::{compile, error_message, regex_new};
use crate::search::{literal_pattern, literal_pattern_text};
use vstd::prelude::*;
use vstd::string::*;
use vstd::utf8::*;

verus! {

/// The formats in which a time to go to can be given: a time of day, with
/// or without seconds, on the day of the file's first timestamp, or a date
/// and a time.
pub const TIME_SECONDS_FORMAT: &'static str = "%H:%M:%S";

pub const TIME_MINUTES_FORMAT: &'static str = "%H:%M";

pub const DATE_SECONDS_FORMAT: &'static str = "%Y-%m-%d %H:%M:%S";

pub const DATE_MINUTES_FORMAT: &'static str = "%Y-%m-%d %H:%M";

/// The first timestamp that any of the lines has; 0 where none has one.
pub open spec fn first_stamp(timestamps: Seq<Option<i64>>, from: int) -> i64
    decreases timestamps.len() - from,
{
    if from < 0 || from >= timestamps.len() {
        0
    } else {
        match timestamps[from] {
            Some(ms) => ms,
            None => first_stamp(timestamps, from + 1),
        }
    }
}

/// The moment that a text names, in milliseconds since the start of 1970:
/// a time of day on the day of `base`, or a date and a time. `None` where
/// the text is in none of the formats.
pub open spec fn named_moment(input: Seq<char>, base: i64) -> Option<i64> {
    if time_on_day(base, input, TIME_SECONDS_FORMAT@) is Some {
        time_on_day(base, input, TIME_SECONDS_FORMAT@)
    } else if time_on_day(base, input, TIME_MINUTES_FORMAT@) is Some {
        time_on_day(base, input, TIME_MINUTES_FORMAT@)
    } else if datetime_millis(input, DATE_SECONDS_FORMAT@) is Some {
        datetime_millis(input, DATE_SECONDS_FORMAT@)
    } else {
        datetime_millis(input, DATE_MINUTES_FORMAT@)
    }
}

/// Reads the moment that a text names.
pub fn parse_moment(input: &str, base: i64) -> (moment: Option<i64>)
    ensures
        moment == named_moment(input@, base),
{
    match parse_time_on_day(base, input, TIME_SECONDS_FORMAT) {
        Some(ms) => Some(ms),
        None => match parse_time_on_day(base, input, TIME_MINUTES_FORMAT) {
            Some(ms) => Some(ms),
            None => match parse_datetime_millis(input, DATE_SECONDS_FORMAT) {
                Some(ms) => Some(ms),
                None => parse_datetime_millis(input, DATE_MINUTES_FORMAT),
            },
        },
    }
}

/// A moment moved by a step, as far as the range of moments lets it.
pub open spec fn moved_by(moment: i64, step: i64) -> i64 {
    if moment + step > i64::MAX {
        i64::MAX
    } else if moment + step < i64::MIN {
        i64::MIN
    } else {
        (moment + step) as i64
    }
}

/// The timestamp of a line; 0 where the line has none or there is no such
/// line.
pub open spec fn stamp_or_zero(timestamps: Seq<Option<i64>>, line: usize) -> i64 {
    if line < timestamps.len() {
        match timestamps[line as int] {
            Some(ms) => ms,
            None => 0,
        }
    } else {
        0
    }
}

/// Where a bookmark on `line` takes its place among bookmarks in the
/// order of their lines: before the first bookmark on a later line.
pub open spec fn bookmark_place(list: Seq<(usize, String)>, line: usize, from: int) -> int
    decreases list.len() - from,
{
    if from < 0 || from >= list.len() {
        list.len() as int
    } else if list[from].0 > line {
        from
    } else {
        bookmark_place(list, line, from + 1)
    }
}

/// The place of the bookmark on `line`; the number of bookmarks where there
/// is none on it.
pub open spec fn bookmark_on(list: Seq<(usize, String)>, line: usize, from: int) -> int
    decreases list.len() - from,
{
    if from < 0 || from >= list.len() {
        list.len() as int
    } else if list[from].0 == line {
        from
    } else {
        bookmark_on(list, line, from + 1)
    }
}

/// The number of a line as it is shown: counted from 1.
pub open spec fn shown_number(line: usize) -> usize {
    if line < usize::MAX {
        (line + 1) as usize
    } else {
        usize::MAX
    }
}

/// The label of a bookmark without a name: the number of its line and the
/// start of the line's text.
pub open spec fn preview_label(line: usize, text: Seq<char>) -> Seq<char> {
    "L"@ + decimal_digits(shown_number(line) as nat) + ": "@ + if text.len()
        > super::LABEL_PREVIEW {
        text.take(super::LABEL_PREVIEW as int)
    } else {
        text
    }
}

/// Finds the first timestamp that any of the lines has.
pub fn first_timestamp(stamps: &[Option<i64>]) -> (first: i64)
    ensures
        first == first_stamp(stamps@, 0),
{
    let mut i: usize = 0;
    while i < stamps.len()
        invariant
            i <= stamps@.len(),
            first_stamp(stamps@, 0) == first_stamp(stamps@, i as int),
        decreases stamps@.len() - i,
    {
        match stamps[i] {
            Some(ms) => {
                return ms;
            },
            None => {},
        }
        i = i + 1;
    }
    0
}

/// Finds the bookmark on `line`.
pub fn find_bookmark(list: &Vec<(usize, String)>, line: usize) -> (on: usize)
    ensures
        on == bookmark_on(list@, line, 0),
        on <= list@.len(),
        on < list@.len() ==> list@[on as int].0 == line,
{
    let mut on: usize = 0;
    while on < list.len() && list[on].0 != line
        invariant
            on <= list@.len(),
            bookmark_on(list@, line, 0) == bookmark_on(list@, line, on as int),
        decreases list@.len() - on,
    {
        on = on + 1;
    }
    on
}

/// Finds where a bookmark on `line` takes its place.
pub fn find_bookmark_place(list: &Vec<(usize, String)>, line: usize) -> (place: usize)
    ensures
        place == bookmark_place(list@, line, 0),
        place <= list@.len(),
{
    let mut place: usize = 0;
    while place < list.len() && list[place].0 <= line
        invariant
            place <= list@.len(),
            bookmark_place(list@, line, 0) == bookmark_place(list@, line, place as int),
        decreases list@.len() - place,
    {
        place = place + 1;
    }
    place
}

/// Makes the label of a bookmark without a name.
pub fn make_preview_label(line: usize, text: &str) -> (label: String)
    ensures
        label@ == preview_label(line, text@),
{
    let number = if line < usize::MAX {
        line + 1
    } else {
        usize::MAX
    };
    let chars = chars_of(text);
    let shown = if chars.len() > super::LABEL_PREVIEW {
        super::LABEL_PREVIEW
    } else {
        chars.len()
    };
    let preview = string_of(vstd::slice::slice_subrange(chars.as_slice(), 0, shown));
    proof {
        assert(chars@.subrange(0, shown as int) =~= if chars@.len() > super::LABEL_PREVIEW {
            chars@.take(super::LABEL_PREVIEW as int)
        } else {
            chars@
        });
    }
    let mut label = "L".to_owned();
    label.append(decimal_text(number).as_str());
    label.append(": ");
    label.append(preview.as_str());
    label
}

/// Moves a moment by a step.
pub fn move_moment(moment: i64, step: i64) -> (moved: i64)
    ensures
        moved == moved_by(moment, step),
{
    match moment.checked_add(step) {
        Some(sum) => sum,
        None => if step > 0 {
            i64::MAX
        } else {
            i64::MIN
        },
    }
}

impl App {
    /// The line that a bookmark is set on: the first selected line, or the
    /// line at the top of the view where none is selected.
    pub open spec fn line_to_mark(self) -> usize {
        if self.selection.lines@.len() > 0 {
            self.selection.lines@[0]
        } else {
            self.engine.line_on_view(self.engine.scroll_offset)
        }
    }

    /// The text of a line, or the empty text where the line has none.
    pub open spec fn line_or_empty(self, line: usize) -> Seq<char> {
        match self.engine.source.line(line as int) {
            Some(text) => text,
            None => Seq::empty(),
        }
    }

    /// Whether everything but the engine's status is as in `before`.
    pub open spec fn noted(self, before: App, note: StatusNote) -> bool {
        self == (App { engine: Engine { status: Some(note), ..before.engine }, ..before })
    }

    /// The label that a bookmark on `line` gets under `name`: the name, or,
    /// without a name, the number of the line and the start of its text.
    pub open spec fn label_for(self, line: usize, name: Seq<char>) -> Seq<char> {
        if name.len() > 0 {
            name
        } else {
            preview_label(line, self.line_or_empty(line))
        }
    }

    /// Whether this is the state after a bookmark has been asked for in
    /// `before` under `name`: a name that is a number is refused; a
    /// bookmark that is on the line already is taken off it; else the line
    /// is marked, the bookmarks staying in the order of their lines.
    pub open spec fn bookmarked_from(self, before: App, name: Seq<char>) -> bool {
        let line = before.line_to_mark();
        let list = before.bookmarks.list@;
        let on = bookmark_on(list, line, 0);
        let place = bookmark_place(list, line, 0);
        &&& self == (App {
            bookmarks: Bookmarks { list: self.bookmarks.list, ..before.bookmarks },
            engine: Engine { status: self.engine.status, ..before.engine },
            ..before
        })
        &&& if name.len() > 0 && decimal_of(encode_utf8(name)) is Some {
            &&& self.bookmarks.list@ == list
            &&& self.engine.status == Some(StatusNote::BookmarkNameIsNumber)
        } else if on < list.len() {
            &&& self.bookmarks.list@ == list.remove(on)
            &&& self.engine.status == Some(
                StatusNote::BookmarkRemoved { number: shown_number(line) },
            )
        } else {
            &&& self.bookmarks.list@.len() == list.len() + 1
            &&& self.bookmarks.list@ == list.insert(place, self.bookmarks.list@[place])
            &&& self.bookmarks.list@[place].0 == line
            &&& self.bookmarks.list@[place].1@ == before.label_for(line, name)
            &&& self.engine.status matches Some(StatusNote::Bookmarked { label })
            &&& label@ == before.label_for(line, name)
        }
    }

    /// Finds the line that a bookmark is set on.
    fn pick_line_to_mark(&self) -> (line: usize)
        ensures
            line == self.line_to_mark(),
    {
        match self.selection.lines.first() {
            Some(first) => first,
            None => self.engine.actual_line(self.engine.scroll_offset),
        }
    }

    /// Makes the label that a bookmark on `line` gets under `name`.
    fn make_label(&self, line: usize, name: &str) -> (label: String)
        ensures
            label@ == self.label_for(line, name@),
    {
        if name.is_empty() {
            match self.engine.source.get_line(line) {
                Some(text) => make_preview_label(line, text.as_str()),
                None => {
                    proof {
                        reveal_strlit("");
                        assert(""@ =~= Seq::<char>::empty());
                    }
                    make_preview_label(line, "")
                },
            }
        } else {
            name.to_owned()
        }
    }

    /// Takes the bookmark at place `on` off its line.
    fn unmark(&mut self, on: usize, line: usize)
        requires
            on < old(self).bookmarks.list@.len(),
        ensures
            *final(self) == (App {
                bookmarks: Bookmarks { list: final(self).bookmarks.list, ..old(self).bookmarks },
                engine: Engine {
                    status: Some(StatusNote::BookmarkRemoved { number: shown_number(line) }),
                    ..old(self).engine
                },
                ..*old(self)
            }),
            final(self).bookmarks.list@ == old(self).bookmarks.list@.remove(on as int),
    {
        let number = if line < usize::MAX {
            line + 1
        } else {
            usize::MAX
        };
        self.bookmarks.list.remove(on);
        self.engine.status = Some(StatusNote::BookmarkRemoved { number });
    }

    /// Puts a bookmark on `line` at place `place` of the bookmarks.
    fn mark(&mut self, place: usize, line: usize, label: String)
        requires
            place <= old(self).bookmarks.list@.len(),
        ensures
            *final(self) == (App {
                bookmarks: Bookmarks { list: final(self).bookmarks.list, ..old(self).bookmarks },
                engine: Engine { status: final(self).engine.status, ..old(self).engine },
                ..*old(self)
            }),
            final(self).bookmarks.list@.len() == old(self).bookmarks.list@.len() + 1,
            final(self).bookmarks.list@ == old(self).bookmarks.list@.insert(
                place as int,
                final(self).bookmarks.list@[place as int],
            ),
            final(self).bookmarks.list@[place as int].0 == line,
            final(self).bookmarks.list@[place as int].1@ == label@,
            final(self).engine.status matches Some(StatusNote::Bookmarked { label: said })
                && said@ == label@,
    {
        let ghost list = self.bookmarks.list@;
        self.bookmarks.list.insert(place, (line, label.clone()));
        proof {
            assert(self.bookmarks.list@ =~= list.insert(
                place as int,
                self.bookmarks.list@[place as int],
            ));
        }
        self.engine.status = Some(StatusNote::Bookmarked { label });
    }

    /// Sets a bookmark on the first selected line, or on the line at the
    /// top of the view, or takes off the bookmark that is on it.
    pub fn add_bookmark(&mut self, name: &str)
        ensures
            final(self).bookmarked_from(*old(self), name@),
    {
        if !name.is_empty() && parse_decimal(name).is_some() {
            self.engine.status = Some(StatusNote::BookmarkNameIsNumber);
            return ;
        }
        let line = self.pick_line_to_mark();
        let on = find_bookmark(&self.bookmarks.list, line);
        if on < self.bookmarks.list.len() {
            self.unmark(on, line);
        } else {
            let label = self.make_label(line, name);
            let place = find_bookmark_place(&self.bookmarks.list, line);
            self.mark(place, line, label);
        }
    }

    /// Whether this is the state after a time has been asked for in
    /// `before`: without a timestamp format that is noted; a step of time,
    /// which begins with a sign, leads from the timestamp of the line at
    /// the top of the view; else the time is read as a moment. The view
    /// goes to the first line at or after the moment.
    pub open spec fn timed_from(self, before: App, input: Seq<char>) -> bool {
        let index = before.engine.source.index_view();
        let bytes = encode_utf8(input);
        if index.timestamp_format is None {
            self.noted(before, StatusNote::NoTimestamps)
        } else if bytes.len() > 0 && (bytes[0] == 43 || bytes[0] == 45) {
            let current = stamp_or_zero(
                index.timestamps,
                before.engine.line_on_view(before.engine.scroll_offset),
            );
            match offset_of(bytes) {
                Ok(step) => {
                    &&& self.went_to_moment(before, moved_by(current, step))
                    &&& self.engine.status matches Some(StatusNote::JumpedBy { input: said })
                    &&& said@ == input
                },
                Err(OffsetError::NoUnit) => self.noted(before, StatusNote::OffsetNeedsUnit),
                Err(OffsetError::InvalidNumber) => {
                    &&& self == (App {
                        engine: Engine { status: self.engine.status, ..before.engine },
                        ..before
                    })
                    &&& self.engine.status matches Some(StatusNote::InvalidOffset { input: said })
                    &&& said@ == input
                },
            }
        } else {
            match named_moment(input, first_stamp(index.timestamps, 0)) {
                Some(moment) => {
                    &&& self.went_to_moment(before, moment)
                    &&& self.engine.status matches Some(StatusNote::JumpedToTime { input: said })
                    &&& said@ == input
                },
                None => {
                    &&& self == (App {
                        engine: Engine { status: self.engine.status, ..before.engine },
                        ..before
                    })
                    &&& self.engine.status matches Some(StatusNote::CannotParseTime { input: said })
                    &&& said@ == input
                },
            }
        }
    }

    /// Whether the view of `self` is where going to `moment` in `before`
    /// leads: at some line; where the timestamps ascend, at the first line
    /// whose timestamp is at least `moment`, or at the last line where
    /// every line is earlier. Nothing else but the status differs.
    pub open spec fn went_to_moment(self, before: App, moment: i64) -> bool {
        let stamps = before.engine.source.index_view().timestamps;
        &&& self == (App {
            engine: Engine {
                scroll_offset: self.engine.scroll_offset,
                status: self.engine.status,
                ..before.engine
            },
            ..before
        })
        &&& exists|line: usize|
            {
                &&& self.engine.scroll_offset == before.engine.scroll_target(line)
                &&& is_ascending(stamps) ==> is_lower_bound(stamps, moment, line as int)
            }
    }

    /// Goes to a time: a moment, as in `14:30` or `2024-01-15 14:30:00`,
    /// or a step from where the view is, as in `-5m` or `+1h`.
    pub fn jump_to_time(&mut self, input: &str)
        ensures
            final(self).timed_from(*old(self), input@),
    {
        if self.engine.source.index().timestamp_format().is_none() {
            self.engine.status = Some(StatusNote::NoTimestamps);
            return ;
        }
        let bytes = input.as_bytes();
        if bytes.len() > 0 && (bytes[0] == 43 || bytes[0] == 45) {
            self.jump_relative_time(input);
            return ;
        }
        let base = first_timestamp(self.engine.source.index().timestamps().as_slice());
        match parse_moment(input, base) {
            Some(moment) => {
                let ghost before = *self;
                let line = self.engine.jump_to_timestamp(moment);
                self.engine.status = Some(StatusNote::JumpedToTime { input: input.to_owned() });
                proof {
                    assert(self.engine.scroll_offset == before.engine.scroll_target(line));
                }
            },
            None => {
                self.engine.status = Some(StatusNote::CannotParseTime { input: input.to_owned() });
            },
        }
    }

    /// The timestamp of the line at the top of the view; 0 where it has
    /// none.
    fn current_stamp(&self) -> (stamp: i64)
        ensures
            stamp == stamp_or_zero(
                self.engine.source.index_view().timestamps,
                self.engine.line_on_view(self.engine.scroll_offset),
            ),
    {
        let line = self.engine.actual_line(self.engine.scroll_offset);
        let stamps = self.engine.source.index().timestamps();
        if line < stamps.len() {
            match stamps[line] {
                Some(ms) => ms,
                None => 0,
            }
        } else {
            0
        }
    }

    /// Goes a step of time from the line at the top of the view.
    fn jump_relative_time(&mut self, input: &str)
        requires
            old(self).engine.source.index_view().timestamp_format is Some,
            input.spec_bytes().len() > 0,
            input.spec_bytes()[0] == 43 || input.spec_bytes()[0] == 45,
        ensures
            final(self).timed_from(*old(self), input@),
    {
        let current = self.current_stamp();
        match parse_time_offset(input) {
            Ok(step) => {
                let target = move_moment(current, step);
                let ghost before = *self;
                let to = self.engine.jump_to_timestamp(target);
                self.engine.status = Some(StatusNote::JumpedBy { input: input.to_owned() });
                proof {
                    assert(self.engine.scroll_offset == before.engine.scroll_target(to));
                }
            },
            Err(OffsetError::NoUnit) => {
                self.engine.status = Some(StatusNote::OffsetNeedsUnit);
            },
            Err(OffsetError::InvalidNumber) => {
                self.engine.status = Some(StatusNote::InvalidOffset { input: input.to_owned() });
            },
        }
    }
}

/// The place of the first bookmark with the given label; the number of
/// bookmarks where there is none.
pub open spec fn bookmark_named(list: Seq<(usize, String)>, label: Seq<char>, from: int) -> int
    decreases list.len() - from,
{
    if from < 0 || from >= list.len() {
        list.len() as int
    } else if list[from].1@ == label {
        from
    } else {
        bookmark_named(list, label, from + 1)
    }
}

/// Finds the first bookmark with the given label.
pub fn find_bookmark_named(list: &Vec<(usize, String)>, label: &str) -> (at: usize)
    ensures
        at == bookmark_named(list@, label@, 0),
        at <= list@.len(),
{
    let mut at: usize = 0;
    while at < list.len()
        invariant
            at <= list@.len(),
            bookmark_named(list@, label@, 0) == bookmark_named(list@, label@, at as int),
        decreases list@.len() - at,
    {
        if super::typing::same_text(list[at].1.as_str(), label) {
            return at;
        }
        at = at + 1;
    }
    at
}

impl App {
    /// Whether this is the state after the bookmarks have been asked for in
    /// `before`: their list is open, or, where there are none, that is
    /// noted.
    pub open spec fn bookmarks_opened_from(self, before: App) -> bool {
        if before.bookmarks.list@.len() == 0 {
            self.noted(before, StatusNote::NoBookmarks)
        } else {
            self == (App {
                bookmarks: Bookmarks { show: true, cursor: 0, ..before.bookmarks },
                ..before
            })
        }
    }

    /// Whether this is the state after what is watched for has been asked
    /// for in `before`: its list is open, or, where nothing is watched for,
    /// that is noted.
    pub open spec fn notifications_opened_from(self, before: App) -> bool {
        if before.notifications.entries@.len() == 0 {
            self.noted(before, StatusNote::NoNotifications)
        } else {
            self == (App {
                notifications: Notifications { show: true, cursor: 0, ..before.notifications },
                ..before
            })
        }
    }

    /// Whether this is the state after `target` has been gone to in
    /// `before`: a number is a line, counted from 1; anything else is the
    /// label of a bookmark.
    pub open spec fn went_from(self, before: App, target: Seq<char>) -> bool {
        let list = before.bookmarks.list@;
        if target.len() == 0 {
            self.noted(before, StatusNote::GoUsage)
        } else {
            match decimal_of(encode_utf8(target)) {
                Some(number) => {
                    let line = crate::engine::line_for_number(
                        number,
                        before.engine.source.index_view().total_lines(),
                    );
                    self == (App {
                        engine: Engine {
                            scroll_offset: before.engine.scroll_target(line as usize),
                            status: Some(
                                StatusNote::JumpedToLine { number: shown_number(line as usize) },
                            ),
                            ..before.engine
                        },
                        ..before
                    })
                },
                None => {
                    let at = bookmark_named(list, target, 0);
                    if at < list.len() {
                        self == (App {
                            engine: Engine {
                                scroll_offset: before.engine.scroll_target(list[at].0),
                                status: Some(StatusNote::JumpedToBookmark { label: list[at].1 }),
                                ..before.engine
                            },
                            ..before
                        })
                    } else {
                        &&& self == (App {
                            engine: Engine { status: self.engine.status, ..before.engine },
                            ..before
                        })
                        &&& self.engine.status matches Some(
                            StatusNote::NoSuchBookmark { name },
                        )
                        &&& name@ == target
                    }
                },
            }
        }
    }

    /// Goes to a line, given by its number, or to a bookmark, given by its
    /// label.
    pub fn go_to(&mut self, target: &str)
        ensures
            final(self).went_from(*old(self), target@),
    {
        if target.is_empty() {
            self.engine.status = Some(StatusNote::GoUsage);
            return ;
        }
        match parse_decimal(target) {
            Some(number) => {
                let line = self.engine.go_to_line(number);
                let shown = if line < usize::MAX {
                    line + 1
                } else {
                    usize::MAX
                };
                self.engine.status = Some(StatusNote::JumpedToLine { number: shown });
            },
            None => {
                let at = find_bookmark_named(&self.bookmarks.list, target);
                if at < self.bookmarks.list.len() {
                    let line = self.bookmarks.list[at].0;
                    let label = self.bookmarks.list[at].1.clone();
                    self.engine.scroll_to(line);
                    self.engine.status = Some(StatusNote::JumpedToBookmark { label });
                } else {
                    self.engine.status = Some(
                        StatusNote::NoSuchBookmark { name: target.to_owned() },
                    );
                }
            },
        }
    }

    /// Whether this is the state after watching for `text` has been asked
    /// for in `before`: the text is watched for, as it is written and in
    /// any letter case; or, where the regex engine refuses its pattern,
    /// that is noted.
    pub open spec fn watching_from(self, before: App, text: Seq<char>) -> bool {
        &&& self == (App {
            notifications: Notifications {
                entries: self.notifications.entries,
                ..before.notifications
            },
            engine: Engine { status: self.engine.status, ..before.engine },
            ..before
        })
        &&& match regex_new(literal_pattern(text)) {
            Some(re) => {
                &&& self.notifications.entries@.len() == before.notifications.entries@.len() + 1
                &&& self.notifications.entries@.drop_last() == before.notifications.entries@
                &&& self.notifications.entries@.last().regex == re
                &&& self.notifications.entries@.last().pattern@ == text
                &&& self.engine.status matches Some(StatusNote::NotifyAdded { pattern })
                &&& pattern@ == text
            },
            None => {
                &&& self.notifications.entries@ == before.notifications.entries@
                &&& self.engine.status matches Some(StatusNote::InvalidPattern { .. })
            },
        }
    }

    /// Begins watching for a text in the lines that the file grows by.
    pub fn watch_for(&mut self, text: &str)
        ensures
            final(self).watching_from(*old(self), text@),
    {
        let pattern = literal_pattern_text(text);
        match compile(pattern.as_str()) {
            Ok(regex) => {
                let ghost before = self.notifications.entries@;
                self.notifications.entries.push(NotifyEntry { pattern: text.to_owned(), regex });
                proof {
                    assert(self.notifications.entries@.drop_last() =~= before);
                }
                self.engine.status = Some(StatusNote::NotifyAdded { pattern: text.to_owned() });
            },
            Err(e) => {
                self.engine.status = Some(
                    StatusNote::InvalidPattern { message: error_message(&e) },
                );
            },
        }
    }

    /// Whether this is the state after the command `kind` has been run in
    /// `before`, called by `name` and given `arg`.
    pub open spec fn ran(self, before: App, kind: CommandKind, name: Seq<char>, arg: Seq<char>) -> bool {
        match kind {
            CommandKind::RegexSearch => if arg.len() > 0 {
                self.same_but_engine(before) && self.engine.search_begun_from(
                    before.engine,
                    arg,
                    arg,
                )
            } else {
                self == before
            },
            CommandKind::Quit => self == (App { should_quit: true, ..before }),
            CommandKind::Top => self == (App {
                engine: Engine { scroll_offset: 0, ..before.engine },
                ..before
            }),
            CommandKind::Bottom => self.same_but_engine(before) && self.engine.at_bottom_of(
                before.engine,
            ),
            CommandKind::Help => self == (App { show_help: !before.show_help, ..before }),
            CommandKind::Follow => self.same_but_engine(before)
                && self.engine.follow_switched_from(before.engine),
            CommandKind::Color => self == (App {
                semantic_color: !before.semantic_color,
                engine: Engine {
                    status: Some(StatusNote::SemanticColor { on: !before.semantic_color }),
                    ..before.engine
                },
                ..before
            }),
            CommandKind::Wrap => self == (App {
                wrap: WrapLayout { on: !before.wrap.on, ..before.wrap },
                engine: Engine {
                    status: Some(StatusNote::LineWrap { on: !before.wrap.on }),
                    ..before.engine
                },
                ..before
            }),
            CommandKind::Delta => self == (App {
                show_delta: !before.show_delta,
                engine: Engine {
                    status: Some(StatusNote::TimeDeltas { on: !before.show_delta }),
                    ..before.engine
                },
                ..before
            }),
            CommandKind::Filter => self.same_but_engine(before) && if arg.len() == 0 {
                self.engine.same_but_filter(before.engine) && self.engine.is_cleared_from(
                    before.engine,
                )
            } else {
                self.engine.filter_set_from(before.engine, arg)
            },
            CommandKind::Time => if arg.len() > 0 {
                self.timed_from(before, arg)
            } else {
                self.noted(before, StatusNote::TimeUsage)
            },
            CommandKind::Go => self.went_from(before, arg),
            CommandKind::Bookmark => self.bookmarked_from(before, arg),
            CommandKind::Bookmarks => self.bookmarks_opened_from(before),
            CommandKind::Notify => if arg.len() == 0 {
                self.notifications_opened_from(before)
            } else {
                self.watching_from(before, arg)
            },
            CommandKind::Notifications => self.notifications_opened_from(before),
            CommandKind::Config => self == (App {
                settings: Settings { show: true, cursor: 0, ..before.settings },
                ..before
            }),
            CommandKind::Theme => self.noted(before, StatusNote::Theme),
            CommandKind::Unknown => {
                &&& self == (App {
                    engine: Engine { status: self.engine.status, ..before.engine },
                    ..before
                })
                &&& self.engine.status matches Some(StatusNote::UnknownCommand { name: said })
                &&& said@ == name
            },
        }
    }

    /// Runs a command that changes what is shown and how.
    fn run_switch(&mut self, kind: CommandKind)
        requires
            kind == CommandKind::Quit || kind == CommandKind::Help || kind == CommandKind::Color
                || kind == CommandKind::Wrap || kind == CommandKind::Delta || kind
                == CommandKind::Config || kind == CommandKind::Theme,
        ensures
            final(self).ran(*old(self), kind, Seq::empty(), Seq::empty()),
    {
        match kind {
            CommandKind::Quit => {
                self.should_quit = true;
            },
            CommandKind::Help => {
                self.show_help = !self.show_help;
            },
            CommandKind::Color => {
                self.semantic_color = !self.semantic_color;
                self.engine.status = Some(StatusNote::SemanticColor { on: self.semantic_color });
            },
            CommandKind::Wrap => {
                self.wrap.on = !self.wrap.on;
                self.engine.status = Some(StatusNote::LineWrap { on: self.wrap.on });
            },
            CommandKind::Delta => {
                self.show_delta = !self.show_delta;
                self.engine.status = Some(StatusNote::TimeDeltas { on: self.show_delta });
            },
            CommandKind::Config => {
                self.settings.show = true;
                self.settings.cursor = 0;
            },
            _ => {
                self.engine.status = Some(StatusNote::Theme);
            },
        }
    }

    /// Runs a command that moves the view or begins work of the engine.
    fn run_engine(&mut self, kind: CommandKind, arg: &str)
        requires
            old(self).wf(),
            kind == CommandKind::RegexSearch || kind == CommandKind::Top || kind
                == CommandKind::Bottom || kind == CommandKind::Follow || kind
                == CommandKind::Filter,
        ensures
            final(self).wf(),
            final(self).ran(*old(self), kind, Seq::empty(), arg@),
    {
        match kind {
            CommandKind::RegexSearch => {
                if !arg.is_empty() {
                    self.engine.execute_regex_search(arg);
                }
            },
            CommandKind::Top => {
                self.engine.scroll_to_top();
            },
            CommandKind::Bottom => {
                self.engine.jump_to_bottom();
            },
            CommandKind::Follow => {
                self.engine.toggle_follow();
            },
            _ => {
                if arg.is_empty() {
                    self.engine.clear_filter();
                } else {
                    self.engine.apply_filter(arg);
                }
            },
        }
    }

    /// Runs a command.
    pub fn run_command(&mut self, command: Command)
        requires
            old(self).wf(),
        ensures
            final(self).wf(),
            final(self).ran(*old(self), command.kind, command.name@, command.arg@),
    {
        let arg = command.arg.as_str();
        match command.kind {
            CommandKind::RegexSearch => self.run_engine(CommandKind::RegexSearch, arg),
            CommandKind::Top => self.run_engine(CommandKind::Top, arg),
            CommandKind::Bottom => self.run_engine(CommandKind::Bottom, arg),
            CommandKind::Follow => self.run_engine(CommandKind::Follow, arg),
            CommandKind::Filter => self.run_engine(CommandKind::Filter, arg),
            CommandKind::Quit => self.run_switch(CommandKind::Quit),
            CommandKind::Help => self.run_switch(CommandKind::Help),
            CommandKind::Color => self.run_switch(CommandKind::Color),
            CommandKind::Wrap => self.run_switch(CommandKind::Wrap),
            CommandKind::Delta => self.run_switch(CommandKind::Delta),
            CommandKind::Config => self.run_switch(CommandKind::Config),
            CommandKind::Theme => self.run_switch(CommandKind::Theme),
            CommandKind::Time => {
                if !arg.is_empty() {
                    self.jump_to_time(arg);
                } else {
                    self.engine.status = Some(StatusNote::TimeUsage);
                }
            },
            CommandKind::Go => self.go_to(arg),
            CommandKind::Bookmark => self.add_bookmark(arg),
            CommandKind::Bookmarks => self.open_bookmarks(),
            CommandKind::Notify => {
                if arg.is_empty() {
                    self.open_notifications();
                } else {
                    self.watch_for(arg);
                }
            },
            CommandKind::Notifications => self.open_notifications(),
            CommandKind::Unknown => {
                self.engine.status = Some(StatusNote::UnknownCommand { name: command.name });
            },
        }
    }

    /// Runs the command that a command line holds.
    pub fn execute_command(&mut self, input: &str)
        requires
            old(self).wf(),
        ensures
            final(self).wf(),
            final(self).ran(
                *old(self),
                kind_of(command_name(input@)),
                command_name(input@),
                command_arg(input@),
            ),
    {
        let command = parse_command(input);
        self.run_command(command);
    }
}

} // verus!
