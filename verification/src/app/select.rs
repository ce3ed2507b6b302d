//! The selection: whole lines, picked with the mouse, or a stretch of
//! text, dragged over.

use super::{App, Selection, TextPos};
use crate::chars::{chars_of, string_of};
use crate::log::index::LogIndex;
use crate::log::reader::LogSource;
use crate::numbers::decimal_digits;
use vstd::prelude::*;
use vstd::string::*;

verus! {

/// The columns that the bookmark mark, the separator and the time deltas
/// take before the text of a line.
pub const MARK_COLUMNS: usize = 1;

pub const SEPARATOR_COLUMNS: usize = 3;

pub const DELTA_COLUMNS: usize = 9;

/// Whether line `i` starts an entry; a line that the index holds no flag
/// for counts as starting one.
pub open spec fn starts_entry(flags: Seq<bool>, i: int) -> bool {
    if 0 <= i < flags.len() {
        flags[i]
    } else {
        true
    }
}

/// The first line of the entry that line `i` belongs to: the nearest line
/// at or before it that starts an entry, or the first line of all.
pub open spec fn entry_first(flags: Seq<bool>, i: int) -> int
    decreases i,
{
    if i <= 0 || starts_entry(flags, i) {
        i
    } else {
        entry_first(flags, i - 1)
    }
}

/// The line behind the entry that the line before `i` belongs to: the
/// first line from `i` on that starts an entry, or `total` behind the last
/// line.
pub open spec fn entry_stop(flags: Seq<bool>, total: int, i: int) -> int
    decreases total - i,
{
    if i >= total || starts_entry(flags, i) {
        i
    } else {
        entry_stop(flags, total, i + 1)
    }
}

/// The lines of the entry that `line` belongs to, from its first to its
/// last: the line alone where the file has no timestamp format.
pub open spec fn entry_lines(has_format: bool, flags: Seq<bool>, total: int, line: usize) -> (
    int,
    int,
) {
    if !has_format || flags.len() == 0 || line >= usize::MAX {
        (line as int, line as int)
    } else {
        (entry_first(flags, line as int), entry_stop(flags, total, line + 1) - 1)
    }
}

/// Finds the lines of the entry that a line belongs to.
pub fn log_entry_range(index: &LogIndex, line: usize) -> (range: (usize, usize))
    ensures
        (range.0 as int, range.1 as int) == entry_lines(
            index@.timestamp_format is Some,
            index@.is_entry_start,
            index@.total_lines() as int,
            line,
        ),
        range.0 <= line <= range.1,
{
    let flags = index.is_entry_start();
    if index.timestamp_format().is_none() || flags.len() == 0 || line == usize::MAX {
        return (line, line);
    }
    let total = index.total_lines();
    let mut start: usize = line;
    while start > 0 && start < flags.len() && !flags[start]
        invariant
            start <= line,
            entry_first(flags@, line as int) == entry_first(flags@, start as int),
        decreases start,
    {
        start = start - 1;
    }
    let mut end: usize = line + 1;
    while end < total && end < flags.len() && !flags[end]
        invariant
            line < end,
            end <= total || end == line + 1,
            entry_stop(flags@, total as int, line + 1) == entry_stop(flags@, total as int, end as int),
        decreases total - end,
    {
        end = end + 1;
    }
    (start, end - 1)
}

/// Texts one after another, with a line feed between each two.
pub open spec fn joined(texts: Seq<Seq<char>>) -> Seq<char>
    decreases texts.len(),
{
    if texts.len() == 0 {
        Seq::empty()
    } else if texts.len() == 1 {
        texts[0]
    } else {
        joined(texts.drop_last()) + seq!['\n'] + texts.last()
    }
}

/// The texts of the first `n` of the given lines, those without a text
/// left out.
pub open spec fn texts_of_lines(source: LogSource, lines: Seq<usize>, n: int) -> Seq<Seq<char>>
    decreases n,
{
    if n <= 0 {
        Seq::empty()
    } else {
        match source.line(lines[n - 1] as int) {
            Some(text) => texts_of_lines(source, lines, n - 1).push(text),
            None => texts_of_lines(source, lines, n - 1),
        }
    }
}

/// A place no further into a text than its end.
pub open spec fn within(col: usize, len: int) -> int {
    if col < len {
        col as int
    } else {
        len
    }
}

/// The characters of a text from place `from` up to place `to`, both no
/// further into the text than its end; none where `to` is not behind
/// `from`.
pub open spec fn stretch(text: Seq<char>, from: usize, to: usize) -> Seq<char> {
    let a = within(from, text.len() as int);
    let b = within(to, text.len() as int);
    if a < b {
        text.subrange(a, b)
    } else {
        Seq::empty()
    }
}

/// Copies the characters of a text from place `from` up to place `to`.
fn copy_stretch(text: &[char], from: usize, to: usize) -> (out: Vec<char>)
    ensures
        out@ == stretch(text@, from, to),
{
    let a = if from < text.len() {
        from
    } else {
        text.len()
    };
    let b = if to < text.len() {
        to
    } else {
        text.len()
    };
    let mut out: Vec<char> = Vec::new();
    if a >= b {
        return out;
    }
    let mut i: usize = a;
    while i < b
        invariant
            a <= i <= b <= text@.len(),
            out@ == text@.subrange(a as int, i as int),
        decreases b - i,
    {
        out.push(text[i]);
        proof {
            assert(out@ =~= text@.subrange(a as int, i + 1));
        }
        i = i + 1;
    }
    out
}

/// Puts characters behind others.
fn push_all(out: &mut Vec<char>, more: &[char])
    ensures
        final(out)@ == old(out)@ + more@,
{
    let mut i: usize = 0;
    while i < more.len()
        invariant
            i <= more@.len(),
            out@ == old(out)@ + more@.take(i as int),
        decreases more@.len() - i,
    {
        out.push(more[i]);
        proof {
            assert(out@ =~= old(out)@ + more@.take(i + 1));
        }
        i = i + 1;
    }
    proof {
        assert(more@.take(more@.len() as int) =~= more@);
    }
}

impl App {
    /// The text of a line as characters; none where the line has no text.
    fn line_chars(&self, line: usize) -> (chars: Vec<char>)
        ensures
            chars@ == self.line_or_empty(line),
    {
        match self.engine.source.get_line(line) {
            Some(text) => chars_of(text.as_str()),
            None => Vec::new(),
        }
    }

    /// The place on view of the line that a row of the terminal shows.
    pub open spec fn place_at_row(self, row: u16) -> usize {
        if self.wrap.on && self.wrap.row_map@.len() > 0 {
            if row < self.wrap.row_map@.len() {
                self.wrap.row_map@[row as int]
            } else {
                self.engine.scroll_offset
            }
        } else if self.engine.scroll_offset + row <= usize::MAX {
            (self.engine.scroll_offset + row) as usize
        } else {
            usize::MAX
        }
    }

    /// The place on view of the line that a row of the terminal shows.
    pub fn visible_idx_for_row(&self, row: u16) -> (place: usize)
        ensures
            place == self.place_at_row(row),
    {
        if self.wrap.on && self.wrap.row_map.len() > 0 {
            if (row as usize) < self.wrap.row_map.len() {
                self.wrap.row_map[row as usize]
            } else {
                self.engine.scroll_offset
            }
        } else if self.engine.scroll_offset <= usize::MAX - row as usize {
            self.engine.scroll_offset + row as usize
        } else {
            usize::MAX
        }
    }

    /// The line of the file that a row of the terminal shows.
    pub open spec fn line_at_row(self, row: u16) -> usize {
        self.engine.line_on_view(self.place_at_row(row))
    }

    /// Whether a row of the terminal shows a line of the file.
    pub open spec fn row_has_line(self, row: u16) -> bool {
        self.line_at_row(row) < self.engine.source.index_view().total_lines()
    }

    /// Whether everything but the selected lines and the anchor is as in
    /// `before`.
    pub open spec fn same_but_picked(self, before: App) -> bool {
        self == (App {
            selection: Selection {
                lines: self.selection.lines,
                anchor: self.selection.anchor,
                ..before.selection
            },
            ..before
        })
    }

    /// Selects the line that was clicked on alone; a click on the only
    /// selected line takes it out of the selection.
    pub fn click_line(&mut self, row: u16)
        ensures
            !old(self).row_has_line(row) ==> *final(self) == *old(self),
            old(self).row_has_line(row) ==> {
                let line = old(self).line_at_row(row);
                &&& final(self).same_but_picked(*old(self))
                &&& if old(self).selection.lines@ == seq![line] {
                    &&& final(self).selection.lines@.len() == 0
                    &&& final(self).selection.anchor is None
                } else {
                    &&& final(self).selection.lines@ == seq![line]
                    &&& final(self).selection.anchor == Some(line)
                }
            },
    {
        let line = self.engine.actual_line(self.visible_idx_for_row(row));
        if line >= self.engine.total_lines() {
            return ;
        }
        let ghost picked = self.selection.lines@;
        let only = self.selection.lines.len() == 1 && self.selection.lines.contains(line);
        proof {
            if only {
                assert(picked[0] == line);
                assert(picked =~= seq![line]);
            } else if picked == seq![line] {
                assert(picked[0] == line);
            }
        }
        self.selection.lines.clear();
        if only {
            self.selection.anchor = None;
        } else {
            self.selection.lines.insert(line);
            self.selection.anchor = Some(line);
            proof {
                assert(self.selection.lines@ =~= seq![line]);
            }
        }
    }

    /// Selects the whole entry that the line belongs to which was clicked
    /// on twice.
    pub fn double_click_line(&mut self, row: u16)
        ensures
            !old(self).row_has_line(row) ==> *final(self) == *old(self),
            old(self).row_has_line(row) ==> {
                let index = old(self).engine.source.index_view();
                let range = entry_lines(
                    index.timestamp_format is Some,
                    index.is_entry_start,
                    index.total_lines() as int,
                    old(self).line_at_row(row),
                );
                &&& final(self).same_but_picked(*old(self))
                &&& final(self).selection.anchor == Some(range.0 as usize)
                &&& forall|l: usize|
                    final(self).selection.lines.has(l) <==> range.0 <= l <= range.1 && l
                        < index.total_lines()
            },
    {
        let line = self.engine.actual_line(self.visible_idx_for_row(row));
        if line >= self.engine.total_lines() {
            return ;
        }
        let (start, end) = log_entry_range(self.engine.source.index(), line);
        self.selection.lines.set_range(start, end, self.engine.total_lines());
        self.selection.anchor = Some(start);
    }

    /// Puts the line that was clicked on into the selection, or takes it
    /// out where it was in it, and makes it the anchor.
    pub fn ctrl_click_line(&mut self, row: u16)
        ensures
            !old(self).row_has_line(row) ==> *final(self) == *old(self),
            old(self).row_has_line(row) ==> {
                let line = old(self).line_at_row(row);
                &&& final(self).same_but_picked(*old(self))
                &&& final(self).selection.anchor == Some(line)
                &&& forall|l: usize|
                    final(self).selection.lines.has(l) <==> if l == line {
                        !old(self).selection.lines.has(l)
                    } else {
                        old(self).selection.lines.has(l)
                    }
            },
    {
        let line = self.engine.actual_line(self.visible_idx_for_row(row));
        if line >= self.engine.total_lines() {
            return ;
        }
        if self.selection.lines.contains(line) {
            self.selection.lines.remove(line);
        } else {
            self.selection.lines.insert(line);
        }
        self.selection.anchor = Some(line);
    }

    /// Selects the lines from the anchor to the line that was clicked on;
    /// that line alone where there is no anchor.
    pub fn shift_click_line(&mut self, row: u16)
        ensures
            !old(self).row_has_line(row) ==> *final(self) == *old(self),
            old(self).row_has_line(row) ==> {
                let line = old(self).line_at_row(row);
                let anchor = match old(self).selection.anchor {
                    Some(a) => a,
                    None => line,
                };
                let total = old(self).engine.source.index_view().total_lines();
                &&& *final(self) == (App {
                    selection: Selection {
                        lines: final(self).selection.lines,
                        ..old(self).selection
                    },
                    ..*old(self)
                })
                &&& forall|l: usize|
                    final(self).selection.lines.has(l) <==> l < total && (anchor <= l <= line
                        || line <= l <= anchor)
            },
    {
        let line = self.engine.actual_line(self.visible_idx_for_row(row));
        let total = self.engine.total_lines();
        if line >= total {
            return ;
        }
        let anchor = match self.selection.anchor {
            Some(a) => a,
            None => line,
        };
        if anchor <= line {
            self.selection.lines.set_range(anchor, line, total);
        } else {
            self.selection.lines.set_range(line, anchor, total);
        }
    }

    /// Forgets the selection, lines and text, and a drag under way.
    pub fn clear_selection(&mut self)
        ensures
            *final(self) == (App { selection: final(self).selection, ..*old(self) }),
            final(self).selection.lines@.len() == 0,
            final(self).selection.anchor is None,
            final(self).selection.text is None,
            final(self).selection.drag_origin is None,
    {
        self.selection.lines.clear();
        self.selection.anchor = None;
        self.selection.text = None;
        self.selection.drag_origin = None;
    }

    /// The text of the selected lines, in the order of the lines, with a
    /// line feed between each two; lines without a text are left out.
    /// `None` where no line is selected.
    pub fn copy_selection(&self) -> (res: Option<String>)
        ensures
            match res {
                Some(text) => self.selection.lines@.len() > 0 && text@ == joined(
                    texts_of_lines(
                        self.engine.source,
                        self.selection.lines@,
                        self.selection.lines@.len() as int,
                    ),
                ),
                None => self.selection.lines@.len() == 0,
            },
    {
        if self.selection.lines.is_empty() {
            return None;
        }
        let lines = self.selection.lines.to_vec();
        let mut out: Vec<char> = Vec::new();
        let mut taken: usize = 0;
        let mut i: usize = 0;
        while i < lines.len()
            invariant
                i <= lines@.len(),
                taken == texts_of_lines(self.engine.source, lines@, i as int).len(),
                taken <= i,
                out@ == joined(texts_of_lines(self.engine.source, lines@, i as int)),
            decreases lines@.len() - i,
        {
            match self.engine.source.get_line(lines[i]) {
                Some(text) => {
                    let ghost before = texts_of_lines(self.engine.source, lines@, i as int);
                    if taken > 0 {
                        out.push('\n');
                    }
                    let chars = chars_of(text.as_str());
                    let ghost so_far = out@;
                    push_all(&mut out, chars.as_slice());
                    proof {
                        let after = texts_of_lines(self.engine.source, lines@, i + 1);
                        assert(after == before.push(text@));
                        assert(after.drop_last() =~= before);
                        if taken == 0 {
                            assert(before =~= Seq::<Seq<char>>::empty());
                            assert(out@ =~= text@);
                        } else {
                            assert(out@ =~= joined(before) + seq!['\n'] + text@);
                        }
                    }
                    taken = taken + 1;
                },
                None => {},
            }
            i = i + 1;
        }
        Some(string_of(out.as_slice()))
    }

    /// How many columns stand before the text of a line: the bookmark
    /// mark, the line number where line numbers are shown, the separator,
    /// and the time delta where time deltas are shown.
    pub open spec fn text_column(self) -> int {
        let gutter = if self.settings.config.line_numbers {
            decimal_digits(self.engine.source.index_view().total_lines()).len() as int
        } else {
            0
        };
        MARK_COLUMNS + gutter + SEPARATOR_COLUMNS + if self.show_delta {
            DELTA_COLUMNS as int
        } else {
            0
        }
    }

    /// The column of the terminal at which the text of a line begins.
    pub fn content_col_offset(&self) -> (column: u16)
        ensures
            column == self.text_column(),
    {
        let gutter: u16 = if self.settings.config.line_numbers {
            digit_count(self.engine.total_lines())
        } else {
            0
        };
        let delta: u16 = if self.show_delta {
            9
        } else {
            0
        };
        1 + gutter + 3 + delta
    }

    /// The place in the text of the file that a place of the terminal
    /// shows; none for a row that shows no line.
    pub open spec fn text_pos_at(self, row: u16, col: u16) -> Option<TextPos> {
        let place = self.place_at_row(row);
        if place >= self.engine.visible() {
            None
        } else {
            let line = self.engine.line_on_view(place);
            let column = if col >= self.text_column() {
                col - self.text_column()
            } else {
                0
            };
            let shift = if self.wrap.on && row < self.wrap.char_offsets@.len() {
                self.wrap.char_offsets@[row as int] as int
            } else {
                0
            };
            let len = self.line_or_empty(line).len() as int;
            Some(
                TextPos {
                    line,
                    col: if column + shift < len {
                        (column + shift) as usize
                    } else {
                        len as usize
                    },
                },
            )
        }
    }

    /// Finds the place in the text of the file that a place of the
    /// terminal shows.
    pub fn terminal_to_text_pos(&self, row: u16, col: u16) -> (pos: Option<TextPos>)
        ensures
            pos == self.text_pos_at(row, col),
    {
        let place = self.visible_idx_for_row(row);
        if place >= self.engine.visible_count() {
            return None;
        }
        let line = self.engine.actual_line(place);
        let offset = self.content_col_offset();
        let column: usize = if col >= offset {
            (col - offset) as usize
        } else {
            0
        };
        let shift: usize = if self.wrap.on && (row as usize) < self.wrap.char_offsets.len() {
            self.wrap.char_offsets[row as usize]
        } else {
            0
        };
        let len = self.line_chars(line).len();
        let at = if shift < len && column < len - shift {
            column + shift
        } else {
            len
        };
        Some(TextPos { line, col: at })
    }

    /// Begins a drag at a place of the terminal; the text that was
    /// selected is selected no more.
    pub fn start_drag(&mut self, row: u16, col: u16)
        ensures
            *final(self) == (App {
                selection: Selection {
                    drag_origin: Some((row, col)),
                    text: None,
                    ..old(self).selection
                },
                ..*old(self)
            }),
    {
        self.selection.drag_origin = Some((row, col));
        self.selection.text = None;
    }

    /// Ends a drag.
    pub fn end_drag(&mut self)
        ensures
            *final(self) == (App {
                selection: Selection { drag_origin: None, ..old(self).selection },
                ..*old(self)
            }),
    {
        self.selection.drag_origin = None;
    }

    /// Whether `first` stands before `second` in the text, or at its
    /// place.
    pub open spec fn in_order(first: TextPos, second: TextPos) -> bool {
        first.line < second.line || (first.line == second.line && first.col <= second.col)
    }

    /// Whether this is the state after a drag that began in `before` has
    /// come to a place of the terminal: the text between where it began
    /// and where it has come to is selected, from the place that stands
    /// first in the text, and no lines are. Nothing changes without a drag,
    /// where the drag has not left its origin, or where one of the two
    /// places shows no line.
    pub open spec fn dragged_from(self, before: App, row: u16, col: u16) -> bool {
        match before.selection.drag_origin {
            Some((from_row, from_col)) => if from_row == row && from_col == col {
                self == before
            } else {
                match (before.text_pos_at(from_row, from_col), before.text_pos_at(row, col)) {
                    (Some(from), Some(to)) => {
                        &&& self == (App {
                            selection: Selection {
                                lines: self.selection.lines,
                                text: if App::in_order(from, to) {
                                    Some((from, to))
                                } else {
                                    Some((to, from))
                                },
                                ..before.selection
                            },
                            ..before
                        })
                        &&& self.selection.lines@.len() == 0
                    },
                    _ => self == before,
                }
            },
            None => self == before,
        }
    }

    /// Takes a drag on to a place of the terminal.
    pub fn update_drag(&mut self, row: u16, col: u16)
        ensures
            final(self).dragged_from(*old(self), row, col),
    {
        let (from_row, from_col) = match self.selection.drag_origin {
            Some(origin) => origin,
            None => {
                return ;
            },
        };
        if row == from_row && col == from_col {
            return ;
        }
        let from = match self.terminal_to_text_pos(from_row, from_col) {
            Some(pos) => pos,
            None => {
                return ;
            },
        };
        let to = match self.terminal_to_text_pos(row, col) {
            Some(pos) => pos,
            None => {
                return ;
            },
        };
        let ordered = from.line < to.line || (from.line == to.line && from.col <= to.col);
        self.selection.text = if ordered {
            Some((from, to))
        } else {
            Some((to, from))
        };
        self.selection.lines.clear();
    }

    /// The part of a line that is within the selected text, as places in
    /// the line's characters; none for a line outside the selected text.
    pub fn line_text_selection(&self, line_num: usize) -> (res: Option<(usize, usize)>)
        ensures
            res == match self.selection.text {
                Some((start, end)) => if line_num < start.line || line_num > end.line {
                    None
                } else {
                    let len = self.line_or_empty(line_num).len() as int;
                    Some(
                        (
                            (if line_num == start.line {
                                within(start.col, len)
                            } else {
                                0
                            }) as usize,
                            (if line_num == end.line {
                                within(end.col, len)
                            } else {
                                len
                            }) as usize,
                        ),
                    )
                },
                None => None,
            },
    {
        let (start, end) = match self.selection.text {
            Some(range) => range,
            None => {
                return None;
            },
        };
        if line_num < start.line || line_num > end.line {
            return None;
        }
        let len = self.line_chars(line_num).len();
        let from = if line_num == start.line {
            if start.col < len {
                start.col
            } else {
                len
            }
        } else {
            0
        };
        let to = if line_num == end.line {
            if end.col < len {
                end.col
            } else {
                len
            }
        } else {
            len
        };
        Some((from, to))
    }

    /// The text from `start` up to `end` as it runs over the lines
    /// `start.line` to `upto`: the first line from `start.col` on, the
    /// lines between whole, the last line up to `end.col`, with a line feed
    /// behind each line but the last.
    pub open spec fn text_over(self, start: TextPos, end: TextPos, upto: int) -> Seq<char>
        decreases upto - start.line + 1,
    {
        if upto < start.line {
            Seq::empty()
        } else {
            let text = if 0 <= upto <= usize::MAX {
                self.line_or_empty(upto as usize)
            } else {
                Seq::empty()
            };
            let part = if upto == start.line {
                text.skip(within(start.col, text.len() as int))
            } else if upto == end.line {
                text.take(within(end.col, text.len() as int))
            } else {
                text
            };
            self.text_over(start, end, upto - 1) + part + if upto < end.line {
                seq!['\n']
            } else {
                Seq::empty()
            }
        }
    }

    /// The text between two places: within one line, the characters from
    /// the first place up to the second, none where there are no such
    /// characters or the line has no text; over several lines, the text as
    /// it runs over them.
    pub open spec fn text_between(self, start: TextPos, end: TextPos) -> Option<Seq<char>> {
        if start.line == end.line {
            match self.engine.source.line(start.line as int) {
                Some(text) => if within(start.col, text.len() as int) < within(
                    end.col,
                    text.len() as int,
                ) {
                    Some(stretch(text, start.col, end.col))
                } else {
                    None
                },
                None => None,
            }
        } else {
            Some(self.text_over(start, end, end.line as int))
        }
    }

    /// Copies the text between two places.
    pub fn extract_text_range(&self, start: TextPos, end: TextPos) -> (res: Option<String>)
        ensures
            match res {
                Some(text) => self.text_between(start, end) == Some(text@),
                None => self.text_between(start, end) is None,
            },
    {
        if start.line == end.line {
            let text = match self.engine.source.get_line(start.line) {
                Some(text) => chars_of(text.as_str()),
                None => {
                    return None;
                },
            };
            let len = text.len();
            let from = if start.col < len {
                start.col
            } else {
                len
            };
            let to = if end.col < len {
                end.col
            } else {
                len
            };
            if from < to {
                return Some(string_of(copy_stretch(text.as_slice(), start.col, end.col).as_slice()));
            }
            return None;
        }
        let mut out: Vec<char> = Vec::new();
        if start.line > end.line {
            return Some(string_of(out.as_slice()));
        }
        let mut l: usize = start.line;
        while l <= end.line
            invariant
                start.line <= l,
                start.line < end.line,
                l <= end.line + 1,
                out@ == self.text_over(start, end, l - 1),
            decreases end.line + 1 - l,
        {
            let text = self.line_chars(l);
            let len = text.len();
            let ghost so_far = out@;
            if l == start.line {
                let from = if start.col < len {
                    start.col
                } else {
                    len
                };
                push_all(&mut out, vstd::slice::slice_subrange(text.as_slice(), from, len));
                proof {
                    assert(text@.subrange(from as int, len as int) =~= text@.skip(from as int));
                }
            } else if l == end.line {
                let to = if end.col < len {
                    end.col
                } else {
                    len
                };
                push_all(&mut out, vstd::slice::slice_subrange(text.as_slice(), 0, to));
                proof {
                    assert(text@.subrange(0, to as int) =~= text@.take(to as int));
                }
            } else {
                push_all(&mut out, text.as_slice());
            }
            if l < end.line {
                out.push('\n');
            }
            proof {
                assert(out@ =~= self.text_over(start, end, l as int));
            }
            if l == usize::MAX {
                return Some(string_of(out.as_slice()));
            }
            l = l + 1;
        }
        Some(string_of(out.as_slice()))
    }

    /// The text that is selected: the stretch of text, where one is
    /// selected, else the text of the selected lines.
    pub fn selected_text(&self) -> (res: Option<String>)
        ensures
            self.selection.text matches Some((start, end)) ==> match res {
                Some(text) => self.text_between(start, end) == Some(text@),
                None => self.text_between(start, end) is None,
            },
            self.selection.text is None ==> match res {
                Some(text) => self.selection.lines@.len() > 0 && text@ == joined(
                    texts_of_lines(
                        self.engine.source,
                        self.selection.lines@,
                        self.selection.lines@.len() as int,
                    ),
                ),
                None => self.selection.lines@.len() == 0,
            },
    {
        match self.selection.text {
            Some((start, end)) => self.extract_text_range(start, end),
            None => self.copy_selection(),
        }
    }
}

/// How many digits write a number.
pub fn digit_count(n: usize) -> (count: u16)
    ensures
        count == decimal_digits(n as nat).len(),
        1 <= count <= 20,
    decreases n,
{
    if n < 10 {
        1
    } else {
        let rest = digit_count(n / 10);
        proof {
            lemma_digit_bound(n as nat);
        }
        rest + 1
    }
}

/// A number below two to the sixty-fourth has twenty digits at most.
pub proof fn lemma_digit_bound(n: nat)
    requires
        n <= u64::MAX,
    ensures
        decimal_digits(n).len() <= 20,
{
    reveal_with_fuel(decimal_digits, 21);
    assert(n / 10 / 10 / 10 / 10 / 10 / 10 / 10 / 10 / 10 / 10 / 10 / 10 / 10 / 10 / 10 / 10 / 10
        / 10 / 10 < 10);
}

} // verus!
