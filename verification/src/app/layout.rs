//! The layout of a wrapped view: which part of which line each row of the
//! terminal shows.

use super::{App, WrapLayout};
use crate::chars::{chars_of, needs_sanitizing, sanitize_line, sanitized_from, string_of};
use vstd::prelude::*;
use vstd::string::*;

verus! {

/// One row of a wrapped view: the place on view of the line that it
/// shows, the part of the line's text that it shows, whether that is the
/// line's first part, and the character of the line that it starts with.
pub struct WrapRow {
    pub visible_idx: usize,
    pub text: String,
    pub is_first: bool,
    pub char_offset: usize,
}

/// A text as it is shown: without what a terminal cannot show as text.
pub open spec fn shown_text(text: Seq<char>) -> Seq<char> {
    if needs_sanitizing(text) {
        sanitized_from(text, 0)
    } else {
        text
    }
}

impl App {
    /// The text of the line at place `place` of the lines on view, as it
    /// is shown.
    pub open spec fn shown_line(self, place: usize) -> Seq<char> {
        shown_text(self.line_or_empty(self.engine.line_on_view(place)))
    }

    /// Whether a row shows a part of the line at its place on view: the
    /// characters from the one it starts with, `width` of them at most.
    pub open spec fn row_fits(self, row: WrapRow, width: usize) -> bool {
        let text = self.shown_line(row.visible_idx);
        &&& row.visible_idx < self.engine.visible()
        &&& row.char_offset <= text.len()
        &&& row.is_first == (row.char_offset == 0)
        &&& row.text@ == text.subrange(
            row.char_offset as int,
            if row.char_offset + width < text.len() {
                row.char_offset + width
            } else {
                text.len() as int
            },
        )
    }

    /// Whether `next` is the row that follows `row`: the next part of the
    /// same line, or, where `row` shows the end of its line, the first part
    /// of the line after it.
    pub open spec fn row_follows(self, row: WrapRow, next: WrapRow, width: usize) -> bool {
        let text = self.shown_line(row.visible_idx);
        if row.char_offset + width < text.len() {
            next.visible_idx == row.visible_idx && next.char_offset == row.char_offset + width
        } else {
            next.visible_idx == row.visible_idx + 1 && next.char_offset == 0
        }
    }

    /// Whether a row shows the end of the last line on view.
    pub open spec fn row_ends_view(self, row: WrapRow, width: usize) -> bool {
        row.char_offset + width >= self.shown_line(row.visible_idx).len() && row.visible_idx + 1
            >= self.engine.visible()
    }

    /// Whether `rows` are the rows of a wrapped view of `height` rows, each
    /// `width` characters wide: they begin with the line at the top of
    /// the view, follow one another, and end with the view's last row or
    /// with the end of the last line on view.
    pub open spec fn lays_out(self, rows: Seq<WrapRow>, height: usize, width: usize) -> bool {
        &&& rows.len() <= height
        &&& forall|k: int| 0 <= k < rows.len() ==> self.row_fits(#[trigger] rows[k], width)
        &&& rows.len() > 0 ==> rows[0].visible_idx == self.engine.scroll_offset
            && rows[0].char_offset == 0
        &&& forall|k: int|
            0 <= k < rows.len() - 1 ==> self.row_follows(#[trigger] rows[k], rows[k + 1], width)
        &&& rows.len() < height ==> if rows.len() == 0 {
            self.engine.scroll_offset >= self.engine.visible()
        } else {
            self.row_ends_view(rows.last(), width)
        }
    }

    /// Whether the layout knows of each row which line it shows: the place
    /// on view and the first character of each of `rows`, and, for the
    /// rows of the view that show nothing, the top of the view.
    pub open spec fn knows_rows(self, rows: Seq<WrapRow>, height: usize) -> bool {
        &&& self.wrap.row_map@.len() == if rows.len() > height {
            rows.len()
        } else {
            height as nat
        }
        &&& self.wrap.char_offsets@.len() == self.wrap.row_map@.len()
        &&& forall|k: int|
            0 <= k < self.wrap.row_map@.len() ==> #[trigger] self.wrap.row_map@[k] == if k
                < rows.len() {
                rows[k].visible_idx
            } else {
                self.engine.scroll_offset
            }
        &&& forall|k: int|
            0 <= k < self.wrap.char_offsets@.len() ==> #[trigger] self.wrap.char_offsets@[k] == if k
                < rows.len() {
                rows[k].char_offset
            } else {
                0
            }
    }

    /// The text of the line at a place on view, as it is shown, in
    /// characters.
    fn shown_chars(&self, place: usize) -> (chars: Vec<char>)
        ensures
            chars@ == self.shown_line(place),
    {
        let line = self.engine.actual_line(place);
        match self.engine.source.get_line(line) {
            Some(text) => match sanitize_line(text.as_str()) {
                Some(clean) => chars_of(clean.as_str()),
                None => chars_of(text.as_str()),
            },
            None => {
                proof {
                    reveal_strlit("");
                    assert(""@ =~= Seq::<char>::empty());
                }
                match sanitize_line("") {
                    Some(clean) => chars_of(clean.as_str()),
                    None => Vec::new(),
                }
            },
        }
    }

    /// Where the row after `row` begins: with the next part of the same
    /// line, or, where `row` shows the end of its line, with the line
    /// after it.
    pub open spec fn next_start(self, row: WrapRow, width: usize) -> (int, int) {
        if row.char_offset + width < self.shown_line(row.visible_idx).len() {
            (row.visible_idx as int, row.char_offset + width)
        } else {
            (row.visible_idx + 1, 0)
        }
    }

    /// Finds the rows of a wrapped view of `height` rows, each `width`
    /// characters wide and one character at least.
    pub fn wrapped_rows(&self, height: usize, width: usize) -> (rows: Vec<WrapRow>)
        requires
            width > 0,
        ensures
            self.lays_out(rows@, height, width),
    {
        let mut rows: Vec<WrapRow> = Vec::new();
        let visible = self.engine.visible_count();
        let mut place: usize = self.engine.scroll_offset;
        let mut at: usize = 0;
        let mut chars: Vec<char> = if place < visible {
            self.shown_chars(place)
        } else {
            Vec::new()
        };
        while rows.len() < height && place < visible
            invariant
                width > 0,
                visible == self.engine.visible(),
                rows@.len() <= height,
                place < visible ==> chars@ == self.shown_line(place),
                place < visible ==> at <= chars@.len(),
                at > 0 ==> place < visible,
                forall|k: int| 0 <= k < rows@.len() ==> self.row_fits(#[trigger] rows@[k], width),
                rows@.len() > 0 ==> rows@[0].visible_idx == self.engine.scroll_offset
                    && rows@[0].char_offset == 0,
                forall|k: int|
                    0 <= k < rows@.len() - 1 ==> self.row_follows(
                        #[trigger] rows@[k],
                        rows@[k + 1],
                        width,
                    ),
                rows@.len() == 0 ==> place == self.engine.scroll_offset && at == 0,
                rows@.len() > 0 ==> self.next_start(rows@.last(), width) == (place as int, at as int),
            decreases visible - place, chars@.len() - at,
        {
            let len = chars.len();
            let end = if width < len - at {
                at + width
            } else {
                len
            };
            let text = string_of(vstd::slice::slice_subrange(chars.as_slice(), at, end));
            let ghost earlier = rows@;
            let row = WrapRow { visible_idx: place, text, is_first: at == 0, char_offset: at };
            proof {
                assert(self.row_fits(row, width));
                if earlier.len() > 0 {
                    assert(self.row_follows(earlier.last(), row, width));
                }
            }
            rows.push(row);
            proof {
                assert forall|k: int| 0 <= k < rows@.len() implies self.row_fits(
                    #[trigger] rows@[k],
                    width,
                ) by {
                    if k < earlier.len() {
                        assert(rows@[k] == earlier[k]);
                    }
                }
                assert forall|k: int| 0 <= k < rows@.len() - 1 implies self.row_follows(
                    #[trigger] rows@[k],
                    rows@[k + 1],
                    width,
                ) by {
                    assert(rows@[k] == earlier[k]);
                    if k < earlier.len() - 1 {
                        assert(rows@[k + 1] == earlier[k + 1]);
                    }
                }
            }
            if end < len {
                at = end;
            } else {
                place = place + 1;
                at = 0;
                if place < visible {
                    chars = self.shown_chars(place);
                }
            }
        }
        rows
    }

    /// Lays out a wrapped view of `height` rows, each `width` characters
    /// wide and one character at least, and notes of each row which line it
    /// shows.
    pub fn layout_wrapped(&mut self, height: usize, width: usize) -> (rows: Vec<WrapRow>)
        requires
            width > 0,
        ensures
            *final(self) == (App {
                wrap: WrapLayout {
                    row_map: final(self).wrap.row_map,
                    char_offsets: final(self).wrap.char_offsets,
                    ..old(self).wrap
                },
                ..*old(self)
            }),
            old(self).lays_out(rows@, height, width),
            final(self).knows_rows(rows@, height),
    {
        let rows = self.wrapped_rows(height, width);
        let mut row_map: Vec<usize> = Vec::new();
        let mut char_offsets: Vec<usize> = Vec::new();
        let top = self.engine.scroll_offset;
        let mut k: usize = 0;
        while k < rows.len() || k < height
            invariant
                row_map@.len() == k,
                char_offsets@.len() == k,
                k <= rows@.len() || k <= height,
                forall|j: int|
                    0 <= j < k ==> #[trigger] row_map@[j] == if j < rows@.len() {
                        rows@[j].visible_idx
                    } else {
                        top
                    },
                forall|j: int|
                    0 <= j < k ==> #[trigger] char_offsets@[j] == if j < rows@.len() {
                        rows@[j].char_offset
                    } else {
                        0
                    },
            decreases (if rows@.len() > height { rows@.len() } else { height as nat }) - k,
        {
            if k < rows.len() {
                row_map.push(rows[k].visible_idx);
                char_offsets.push(rows[k].char_offset);
            } else {
                row_map.push(top);
                char_offsets.push(0);
            }
            k = k + 1;
        }
        self.wrap.row_map = row_map;
        self.wrap.char_offsets = char_offsets;
        rows
    }
}

/// The part of a selection from character `start` up to character `end`
/// of a line that a row shows, the row beginning with character `offset`
/// of the line and showing `count` characters: from which of the row's
/// characters up to which; `None` where the row shows nothing of it.
pub open spec fn selection_in_row(start: usize, end: usize, offset: usize, count: usize) -> Option<
    (usize, usize),
> {
    let from = if start > offset {
        start - offset
    } else {
        0
    };
    let to = if end <= offset {
        0
    } else if end - offset < count {
        end - offset
    } else {
        count as int
    };
    if from < to {
        Some((from as usize, to as usize))
    } else {
        None
    }
}

/// Finds the part of a selection that a row shows.
pub fn row_selection(start: usize, end: usize, offset: usize, count: usize) -> (part: Option<
    (usize, usize),
>)
    ensures
        part == selection_in_row(start, end, offset, count),
{
    let from = if start > offset {
        start - offset
    } else {
        0
    };
    let to = if end <= offset {
        0
    } else if end - offset < count {
        end - offset
    } else {
        count
    };
    if from < to {
        Some((from, to))
    } else {
        None
    }
}

} // verus!
