//! The panels: the list of bookmarks, the list of what is watched for,
//! and the settings.

use super::{App, Bookmarks, Notifications, NotifyEntry, Settings, WrapLayout};
use crate::config::Config;
use crate::engine::{Engine, StatusNote};
use crate::log::tail::{bytes_of, lines_from, split_lines};
use crate::text::{decode_lossy, utf8_lossy};
use crate::numbers::{decimal_digits, decimal_text};
use crate::pattern::{is_match, regex_matches};
use regex::Regex;
use vstd::utf8::{decode_utf8, encode_utf8};
use vstd::prelude::*;
use vstd::string::*;

verus! {

/// How many settings the settings panel shows: the theme, line numbers,
/// the mouse, the scroll speed, line wrap, and semantic colour.
pub const CONFIG_ITEM_COUNT: usize = 6;

/// Whether one of the bookmarks is on `line`.
pub open spec fn has_bookmark(list: Seq<(usize, String)>, line: usize) -> bool {
    exists|i: int| 0 <= i < list.len() && (#[trigger] list[i]).0 == line
}

/// A cursor one place further up a list; it stays at the top.
pub open spec fn cursor_up(cursor: usize) -> usize {
    if cursor > 0 {
        (cursor - 1) as usize
    } else {
        cursor
    }
}

/// A cursor one place further down a list of `count` entries; it stays at
/// the bottom.
pub open spec fn cursor_down(cursor: usize, count: int) -> usize {
    if cursor + 1 < count {
        (cursor + 1) as usize
    } else {
        cursor
    }
}

/// Where the cursor of a list stands after the entry at the cursor is
/// gone: where it stood, or on the last entry where it stood behind it.
pub open spec fn cursor_after_removal(cursor: usize, left: int) -> usize {
    if left > 0 && cursor >= left {
        (left - 1) as usize
    } else {
        cursor
    }
}

/// The text of a switch.
pub open spec fn switch_text(on: bool) -> Seq<char> {
    if on {
        "ON"@
    } else {
        "OFF"@
    }
}

/// What the settings panel shows for the setting at place `idx`.
pub open spec fn setting_text(config: Config, idx: usize) -> Seq<char> {
    if idx == 0 {
        crate::config::preset_of(config.theme_index as int).name@
    } else if idx == 1 {
        switch_text(config.line_numbers)
    } else if idx == 2 {
        switch_text(config.mouse)
    } else if idx == 3 {
        decimal_digits(config.scroll_speed as nat)
    } else if idx == 4 {
        switch_text(config.wrap)
    } else if idx == 5 {
        switch_text(config.semantic_color)
    } else {
        Seq::empty()
    }
}

/// The text of a truth value in the settings file.
pub open spec fn truth_text(value: bool) -> Seq<char> {
    if value {
        "true"@
    } else {
        "false"@
    }
}

/// The settings as the settings file holds them.
pub open spec fn settings_file_text(config: Config) -> Seq<char> {
    "[general]\ntheme = \""@ + crate::config::preset_of(config.theme_index as int).name@
        + "\"\nscroll_speed = "@ + decimal_digits(config.scroll_speed as nat)
        + "\nline_numbers = "@ + truth_text(config.line_numbers) + "\nmouse = "@ + truth_text(
        config.mouse,
    ) + "\nwrap = "@ + truth_text(config.wrap) + "\nsemantic_color = "@ + truth_text(
        config.semantic_color,
    ) + "\n"@
}

/// The text of a switch.
fn switch(on: bool) -> (text: String)
    ensures
        text@ == switch_text(on),
{
    if on {
        "ON".to_owned()
    } else {
        "OFF".to_owned()
    }
}

/// The text of a truth value in the settings file.
fn truth(value: bool) -> (text: &'static str)
    ensures
        text@ == truth_text(value),
{
    if value {
        "true"
    } else {
        "false"
    }
}

impl App {
    /// Whether a bookmark is on `line`.
    pub fn is_bookmarked(&self, line: usize) -> (marked: bool)
        ensures
            marked == has_bookmark(self.bookmarks.list@, line),
    {
        let mut i: usize = 0;
        while i < self.bookmarks.list.len()
            invariant
                i <= self.bookmarks.list@.len(),
                forall|k: int| 0 <= k < i ==> (#[trigger] self.bookmarks.list@[k]).0 != line,
            decreases self.bookmarks.list@.len() - i,
        {
            if self.bookmarks.list[i].0 == line {
                return true;
            }
            i = i + 1;
        }
        false
    }

    /// Opens the list of bookmarks, where there are any.
    pub fn open_bookmarks(&mut self)
        ensures
            old(self).bookmarks.list@.len() == 0 ==> *final(self) == (App {
                engine: Engine { status: Some(StatusNote::NoBookmarks), ..old(self).engine },
                ..*old(self)
            }),
            old(self).bookmarks.list@.len() > 0 ==> *final(self) == (App {
                bookmarks: Bookmarks { show: true, cursor: 0, ..old(self).bookmarks },
                ..*old(self)
            }),
    {
        if self.bookmarks.list.len() == 0 {
            self.engine.status = Some(StatusNote::NoBookmarks);
            return ;
        }
        self.bookmarks.show = true;
        self.bookmarks.cursor = 0;
    }

    /// Moves up the list of bookmarks.
    pub fn bookmark_up(&mut self)
        ensures
            *final(self) == (App {
                bookmarks: Bookmarks {
                    cursor: cursor_up(old(self).bookmarks.cursor),
                    ..old(self).bookmarks
                },
                ..*old(self)
            }),
    {
        if self.bookmarks.cursor > 0 {
            self.bookmarks.cursor = self.bookmarks.cursor - 1;
        }
    }

    /// Moves down the list of bookmarks.
    pub fn bookmark_down(&mut self)
        ensures
            *final(self) == (App {
                bookmarks: Bookmarks {
                    cursor: cursor_down(
                        old(self).bookmarks.cursor,
                        old(self).bookmarks.list@.len() as int,
                    ),
                    ..old(self).bookmarks
                },
                ..*old(self)
            }),
    {
        if self.bookmarks.cursor < self.bookmarks.list.len() && self.bookmarks.cursor + 1
            < self.bookmarks.list.len() {
            self.bookmarks.cursor = self.bookmarks.cursor + 1;
        }
    }

    /// Goes to the bookmark at the cursor and closes the list.
    pub fn bookmark_select(&mut self)
        ensures
            old(self).bookmarks.cursor >= old(self).bookmarks.list@.len() ==> *final(self) == *old(self),
            old(self).bookmarks.cursor < old(self).bookmarks.list@.len() ==> {
                let mark = old(self).bookmarks.list@[old(self).bookmarks.cursor as int];
                *final(self) == (App {
                    bookmarks: Bookmarks { show: false, ..old(self).bookmarks },
                    engine: Engine {
                        scroll_offset: old(self).engine.scroll_target(mark.0),
                        status: Some(StatusNote::JumpedToBookmark { label: mark.1 }),
                        ..old(self).engine
                    },
                    ..*old(self)
                })
            },
    {
        if self.bookmarks.cursor < self.bookmarks.list.len() {
            let line = self.bookmarks.list[self.bookmarks.cursor].0;
            let label = self.bookmarks.list[self.bookmarks.cursor].1.clone();
            self.bookmarks.show = false;
            self.engine.scroll_to(line);
            self.engine.status = Some(StatusNote::JumpedToBookmark { label });
        }
    }

    /// Deletes the bookmark at the cursor; the list closes with its last
    /// bookmark.
    pub fn bookmark_delete_selected(&mut self)
        ensures
            old(self).bookmarks.cursor >= old(self).bookmarks.list@.len() ==> *final(self) == *old(self),
            old(self).bookmarks.cursor < old(self).bookmarks.list@.len() ==> {
                let left = old(self).bookmarks.list@.remove(old(self).bookmarks.cursor as int);
                &&& *final(self) == (App { bookmarks: final(self).bookmarks, ..*old(self) })
                &&& final(self).bookmarks.list@ == left
                &&& final(self).bookmarks.show == (old(self).bookmarks.show && left.len() > 0)
                &&& final(self).bookmarks.cursor == cursor_after_removal(
                    old(self).bookmarks.cursor,
                    left.len() as int,
                )
            },
    {
        if self.bookmarks.cursor < self.bookmarks.list.len() {
            self.bookmarks.list.remove(self.bookmarks.cursor);
            if self.bookmarks.list.len() == 0 {
                self.bookmarks.show = false;
            } else if self.bookmarks.cursor >= self.bookmarks.list.len() {
                self.bookmarks.cursor = self.bookmarks.list.len() - 1;
            }
        }
    }

    /// Opens the list of what is watched for, where anything is.
    pub fn open_notifications(&mut self)
        ensures
            old(self).notifications.entries@.len() == 0 ==> *final(self) == (App {
                engine: Engine { status: Some(StatusNote::NoNotifications), ..old(self).engine },
                ..*old(self)
            }),
            old(self).notifications.entries@.len() > 0 ==> *final(self) == (App {
                notifications: Notifications { show: true, cursor: 0, ..old(self).notifications },
                ..*old(self)
            }),
    {
        if self.notifications.entries.len() == 0 {
            self.engine.status = Some(StatusNote::NoNotifications);
            return ;
        }
        self.notifications.show = true;
        self.notifications.cursor = 0;
    }

    /// Moves up the list of what is watched for.
    pub fn notification_up(&mut self)
        ensures
            *final(self) == (App {
                notifications: Notifications {
                    cursor: cursor_up(old(self).notifications.cursor),
                    ..old(self).notifications
                },
                ..*old(self)
            }),
    {
        if self.notifications.cursor > 0 {
            self.notifications.cursor = self.notifications.cursor - 1;
        }
    }

    /// Moves down the list of what is watched for.
    pub fn notification_down(&mut self)
        ensures
            *final(self) == (App {
                notifications: Notifications {
                    cursor: cursor_down(
                        old(self).notifications.cursor,
                        old(self).notifications.entries@.len() as int,
                    ),
                    ..old(self).notifications
                },
                ..*old(self)
            }),
    {
        if self.notifications.cursor < self.notifications.entries.len()
            && self.notifications.cursor + 1 < self.notifications.entries.len() {
            self.notifications.cursor = self.notifications.cursor + 1;
        }
    }

    /// Ends watching for the entry at the cursor; the list closes with its
    /// last entry, and that is noted.
    pub fn notification_delete_selected(&mut self)
        ensures
            old(self).notifications.cursor >= old(self).notifications.entries@.len() ==> *final(self)
                == *old(self),
            old(self).notifications.cursor < old(self).notifications.entries@.len() ==> {
                let gone = old(self).notifications.entries@[old(self).notifications.cursor as int];
                let left = old(self).notifications.entries@.remove(
                    old(self).notifications.cursor as int,
                );
                &&& *final(self) == (App {
                    notifications: final(self).notifications,
                    engine: final(self).engine,
                    ..*old(self)
                })
                &&& final(self).notifications.entries@ == left
                &&& final(self).notifications.show == (old(self).notifications.show && left.len()
                    > 0)
                &&& final(self).notifications.cursor == cursor_after_removal(
                    old(self).notifications.cursor,
                    left.len() as int,
                )
                &&& final(self).engine == (Engine {
                    status: if left.len() == 0 {
                        Some(StatusNote::NotificationRemoved { pattern: gone.pattern })
                    } else {
                        old(self).engine.status
                    },
                    ..old(self).engine
                })
            },
    {
        if self.notifications.cursor < self.notifications.entries.len() {
            let removed = self.notifications.entries.remove(self.notifications.cursor);
            if self.notifications.entries.len() == 0 {
                self.notifications.show = false;
                self.engine.status = Some(
                    StatusNote::NotificationRemoved { pattern: removed.pattern },
                );
            } else if self.notifications.cursor >= self.notifications.entries.len() {
                self.notifications.cursor = self.notifications.entries.len() - 1;
            }
        }
    }

    /// Moves up the settings.
    pub fn config_up(&mut self)
        ensures
            *final(self) == (App {
                settings: Settings {
                    cursor: cursor_up(old(self).settings.cursor),
                    ..old(self).settings
                },
                ..*old(self)
            }),
    {
        if self.settings.cursor > 0 {
            self.settings.cursor = self.settings.cursor - 1;
        }
    }

    /// Moves down the settings.
    pub fn config_down(&mut self)
        ensures
            *final(self) == (App {
                settings: Settings {
                    cursor: cursor_down(old(self).settings.cursor, CONFIG_ITEM_COUNT as int),
                    ..old(self).settings
                },
                ..*old(self)
            }),
    {
        if self.settings.cursor < CONFIG_ITEM_COUNT && self.settings.cursor + 1
            < CONFIG_ITEM_COUNT {
            self.settings.cursor = self.settings.cursor + 1;
        }
    }

    /// Switches or raises the setting at the cursor: the next theme, the
    /// first after the last; a switch turned; the scroll speed one line
    /// faster. Line wrap and semantic colour take effect at once.
    pub fn config_toggle(&mut self)
        ensures
            *final(self) == (App {
                settings: final(self).settings,
                wrap: final(self).wrap,
                semantic_color: final(self).semantic_color,
                ..*old(self)
            }),
            final(self).settings == (Settings {
                config: final(self).settings.config,
                ..old(self).settings
            }),
            final(self).settings.config.raised_from(
                old(self).settings.config,
                old(self).settings.cursor,
            ),
            final(self).wrap == (WrapLayout {
                on: if old(self).settings.cursor == 4 {
                    final(self).settings.config.wrap
                } else {
                    old(self).wrap.on
                },
                ..old(self).wrap
            }),
            final(self).semantic_color == if old(self).settings.cursor == 5 {
                final(self).settings.config.semantic_color
            } else {
                old(self).semantic_color
            },
    {
        let cursor = self.settings.cursor;
        self.settings.config.raise(cursor);
        if cursor == 4 {
            self.wrap.on = self.settings.config.wrap;
        } else if cursor == 5 {
            self.semantic_color = self.settings.config.semantic_color;
        }
    }

    /// Lowers the setting at the cursor: the theme before, the last before
    /// the first; the scroll speed one line slower.
    pub fn config_decrease(&mut self)
        ensures
            *final(self) == (App { settings: final(self).settings, ..*old(self) }),
            final(self).settings == (Settings {
                config: final(self).settings.config,
                ..old(self).settings
            }),
            final(self).settings.config.lowered_from(
                old(self).settings.config,
                old(self).settings.cursor,
            ),
    {
        let cursor = self.settings.cursor;
        self.settings.config.lower(cursor);
    }

    /// What the settings panel shows for the setting at place `idx`.
    pub fn config_value(&self, idx: usize) -> (text: String)
        ensures
            text@ == setting_text(self.settings.config, idx),
    {
        let config = &self.settings.config;
        if idx == 0 {
            config.theme_name().to_owned()
        } else if idx == 1 {
            switch(config.line_numbers)
        } else if idx == 2 {
            switch(config.mouse)
        } else if idx == 3 {
            decimal_text(config.scroll_speed)
        } else if idx == 4 {
            switch(config.wrap)
        } else if idx == 5 {
            switch(config.semantic_color)
        } else {
            String::new()
        }
    }

    /// The settings as they are written to the settings file.
    pub fn config_text(&self) -> (text: String)
        ensures
            text@ == settings_file_text(self.settings.config),
    {
        let config = &self.settings.config;
        let mut text = "[general]\ntheme = \"".to_owned();
        text.append(config.theme_name());
        text.append("\"\nscroll_speed = ");
        text.append(decimal_text(config.scroll_speed).as_str());
        text.append("\nline_numbers = ");
        text.append(truth(config.line_numbers));
        text.append("\nmouse = ");
        text.append(truth(config.mouse));
        text.append("\nwrap = ");
        text.append(truth(config.wrap));
        text.append("\nsemantic_color = ");
        text.append(truth(config.semantic_color));
        text.append("\n");
        text
    }
}

/// What there is to tell of one thing that is watched for, after the file
/// has grown: what was watched for, how many of the new lines hold it, and
/// the first of them.
pub struct Notice {
    pub pattern: String,
    pub matches: usize,
    pub first: String,
}

/// How many of the first `n` lines an expression matches.
pub open spec fn count_matching(re: &Regex, lines: Seq<Seq<u8>>, n: int) -> nat
    decreases n,
{
    if n <= 0 {
        0
    } else {
        count_matching(re, lines, n - 1) + if regex_matches(re, decode_utf8(lines[n - 1])) {
            1nat
        } else {
            0nat
        }
    }
}

/// The first of the lines from `from` on that an expression matches; the
/// number of lines where it matches none.
pub open spec fn first_matching(re: &Regex, lines: Seq<Seq<u8>>, from: int) -> int
    decreases lines.len() - from,
{
    if from < 0 || from >= lines.len() {
        lines.len() as int
    } else if regex_matches(re, decode_utf8(lines[from])) {
        from
    } else {
        first_matching(re, lines, from + 1)
    }
}

/// The lines that bytes hold, where what is not valid UTF-8 is replaced.
pub open spec fn lines_of_bytes(data: Seq<u8>) -> Seq<Seq<u8>> {
    lines_from(encode_utf8(utf8_lossy(data)), 0)
}

/// Whether `notices` tell of the first `n` of the things watched for, over
/// the lines `lines`: one notice, in order, for each whose expression
/// matches a line, with the number of lines that it matches and the first
/// of them.
pub open spec fn tells_of(
    notices: Seq<Notice>,
    entries: Seq<NotifyEntry>,
    lines: Seq<Seq<u8>>,
    n: int,
) -> bool
    decreases n,
{
    if n <= 0 {
        notices.len() == 0
    } else {
        let entry = entries[n - 1];
        let count = count_matching(&entry.regex, lines, lines.len() as int);
        if count == 0 {
            tells_of(notices, entries, lines, n - 1)
        } else {
            &&& notices.len() > 0
            &&& tells_of(notices.drop_last(), entries, lines, n - 1)
            &&& notices.last().pattern@ == entry.pattern@
            &&& notices.last().matches == count
            &&& notices.last().first@ == decode_utf8(
                lines[first_matching(&entry.regex, lines, 0)],
            )
        }
    }
}

/// Counts the lines that an expression matches, and finds the first of
/// them.
fn count_and_first(re: &Regex, lines: &Vec<&str>) -> (res: (usize, usize))
    ensures
        res.0 == count_matching(re, bytes_of(lines@), lines@.len() as int),
        res.1 == first_matching(re, bytes_of(lines@), 0),
        res.1 <= lines@.len(),
        res.0 > 0 ==> res.1 < lines@.len(),
{
    let ghost all = bytes_of(lines@);
    let mut count: usize = 0;
    let mut first: usize = lines.len();
    let mut i: usize = 0;
    while i < lines.len()
        invariant
            i <= lines@.len(),
            all == bytes_of(lines@),
            count == count_matching(re, all, i as int),
            count <= i,
            first <= lines@.len(),
            count == 0 ==> first == lines@.len() && first_matching(re, all, 0) == first_matching(
                re,
                all,
                i as int,
            ),
            count > 0 ==> first < i && first == first_matching(re, all, 0),
        decreases lines@.len() - i,
    {
        proof {
            assert(all[i as int] == lines@[i as int].spec_bytes());
            vstd::utf8::encode_utf8_decode_utf8(lines@[i as int]@);
            assert(decode_utf8(all[i as int]) == lines@[i as int]@);
        }
        if is_match(re, lines[i]) {
            if count == 0 {
                first = i;
            }
            count = count + 1;
        }
        i = i + 1;
    }
    (count, first)
}

impl App {
    /// What there is to tell of what is watched for, after the file has
    /// grown by `new_data`.
    pub fn growth_notices(&self, new_data: &[u8]) -> (notices: Vec<Notice>)
        ensures
            tells_of(
                notices@,
                self.notifications.entries@,
                lines_of_bytes(new_data@),
                self.notifications.entries@.len() as int,
            ),
    {
        let mut notices: Vec<Notice> = Vec::new();
        if self.notifications.entries.len() == 0 {
            return notices;
        }
        let text = decode_lossy(new_data);
        let lines = split_lines(text.as_str());
        let ghost all = lines_of_bytes(new_data@);
        let mut k: usize = 0;
        while k < self.notifications.entries.len()
            invariant
                k <= self.notifications.entries@.len(),
                all == bytes_of(lines@),
                tells_of(notices@, self.notifications.entries@, all, k as int),
            decreases self.notifications.entries@.len() - k,
        {
            let entry = &self.notifications.entries[k];
            let (count, first) = count_and_first(&entry.regex, &lines);
            if count > 0 {
                let ghost before = notices@;
                notices.push(
                    Notice {
                        pattern: entry.pattern.clone(),
                        matches: count,
                        first: lines[first].to_owned(),
                    },
                );
                proof {
                    assert(notices@.drop_last() =~= before);
                    assert(all[first as int] == lines@[first as int].spec_bytes());
                    vstd::utf8::encode_utf8_decode_utf8(lines@[first as int]@);
                }
            }
            k = k + 1;
        }
        notices
    }
}

} // verus!
