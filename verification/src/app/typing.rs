//! The input line: what the keys do to it, the commands that are suggested
//! for what has been typed, and what is done when it is entered.

use super::{
    App, InputLine, InputMode, SlashCommand, Suggestions, HISTORY_LIMIT, SLASH_COMMAND_COUNT,
    SUGGESTIONS_SHOWN,
};
use crate::chars::{chars_of, fuzzy_match, is_fuzzy_match, string_of};
use crate::command::without_slash;
use crate::engine::{next_generation, Engine};
use crate::input::{
    cursor_char, erased_at, erased_before, insert_char, left_of, remove_at, remove_before,
    right_of, step_left, step_right, typed,
};
use crate::matching::passing;
use crate::pattern::{compile, regex_new};
use crate::search::{literal_pattern, literal_pattern_text};
use crate::text::{lowercase_text, lowercased, trim_text, trimmed};
use regex::Regex;
use vstd::prelude::*;
use vstd::string::*;
use vstd::utf8::*;

verus! {

/// The command at place `i` of the table of commands.
pub open spec fn slash_command_of(i: int) -> SlashCommand {
    if i == 0 {
        SlashCommand { name: "regex", description: "Regex search  /r error.*timeout", has_arg: true }
    } else if i == 1 {
        SlashCommand {
            name: "follow",
            description: "Toggle auto-scroll to bottom  /f",
            has_arg: false,
        }
    } else if i == 2 {
        SlashCommand { name: "filter", description: "Filter lines  /fi ERROR !debug", has_arg: true }
    } else if i == 3 {
        SlashCommand {
            name: "time",
            description: "Jump to time  /t 14:30  /t -5m  /t +1h",
            has_arg: true,
        }
    } else if i == 4 {
        SlashCommand {
            name: "go",
            description: "Go to line or bookmark  /g 42  /g mymark",
            has_arg: true,
        }
    } else if i == 5 {
        SlashCommand {
            name: "bookmark",
            description: "Toggle bookmark  /b  or  /b name",
            has_arg: true,
        }
    } else if i == 6 {
        SlashCommand { name: "bookmarks", description: "Open bookmark list  /bs", has_arg: false }
    } else if i == 7 {
        SlashCommand {
            name: "notify",
            description: "Watch for pattern  /n ERROR  (stacks)",
            has_arg: true,
        }
    } else if i == 8 {
        SlashCommand {
            name: "notifications",
            description: "List active notifications  /ns  d to remove",
            has_arg: false,
        }
    } else if i == 9 {
        SlashCommand { name: "delta", description: "Toggle time delta column  /d", has_arg: false }
    } else if i == 10 {
        SlashCommand { name: "top", description: "Go to first line", has_arg: false }
    } else if i == 11 {
        SlashCommand { name: "bottom", description: "Go to last line", has_arg: false }
    } else if i == 12 {
        SlashCommand {
            name: "config",
            description: "Open settings  \u{2190}\u{2192} change  Esc save",
            has_arg: false,
        }
    } else if i == 13 {
        SlashCommand { name: "color", description: "Toggle semantic coloring  /c", has_arg: false }
    } else if i == 14 {
        SlashCommand { name: "wrap", description: "Toggle line wrapping  /w", has_arg: false }
    } else if i == 15 {
        SlashCommand {
            name: "help",
            description: "Show keyboard shortcuts & commands",
            has_arg: false,
        }
    } else {
        SlashCommand { name: "quit", description: "Quit  /q", has_arg: false }
    }
}

/// The command at place `i` of the table of commands; the last command for
/// any place behind it.
pub fn slash_command(i: usize) -> (command: SlashCommand)
    ensures
        command == slash_command_of(i as int),
{
    if i == 0 {
        SlashCommand { name: "regex", description: "Regex search  /r error.*timeout", has_arg: true }
    } else if i == 1 {
        SlashCommand {
            name: "follow",
            description: "Toggle auto-scroll to bottom  /f",
            has_arg: false,
        }
    } else if i == 2 {
        SlashCommand { name: "filter", description: "Filter lines  /fi ERROR !debug", has_arg: true }
    } else if i == 3 {
        SlashCommand {
            name: "time",
            description: "Jump to time  /t 14:30  /t -5m  /t +1h",
            has_arg: true,
        }
    } else if i == 4 {
        SlashCommand {
            name: "go",
            description: "Go to line or bookmark  /g 42  /g mymark",
            has_arg: true,
        }
    } else if i == 5 {
        SlashCommand {
            name: "bookmark",
            description: "Toggle bookmark  /b  or  /b name",
            has_arg: true,
        }
    } else if i == 6 {
        SlashCommand { name: "bookmarks", description: "Open bookmark list  /bs", has_arg: false }
    } else if i == 7 {
        SlashCommand {
            name: "notify",
            description: "Watch for pattern  /n ERROR  (stacks)",
            has_arg: true,
        }
    } else if i == 8 {
        SlashCommand {
            name: "notifications",
            description: "List active notifications  /ns  d to remove",
            has_arg: false,
        }
    } else if i == 9 {
        SlashCommand { name: "delta", description: "Toggle time delta column  /d", has_arg: false }
    } else if i == 10 {
        SlashCommand { name: "top", description: "Go to first line", has_arg: false }
    } else if i == 11 {
        SlashCommand { name: "bottom", description: "Go to last line", has_arg: false }
    } else if i == 12 {
        SlashCommand {
            name: "config",
            description: "Open settings  \u{2190}\u{2192} change  Esc save",
            has_arg: false,
        }
    } else if i == 13 {
        SlashCommand { name: "color", description: "Toggle semantic coloring  /c", has_arg: false }
    } else if i == 14 {
        SlashCommand { name: "wrap", description: "Toggle line wrapping  /w", has_arg: false }
    } else if i == 15 {
        SlashCommand {
            name: "help",
            description: "Show keyboard shortcuts & commands",
            has_arg: false,
        }
    } else {
        SlashCommand { name: "quit", description: "Quit  /q", has_arg: false }
    }
}

/// Whether a text begins with another.
pub open spec fn is_prefix(prefix: Seq<char>, text: Seq<char>) -> bool {
    prefix.len() <= text.len() && text.take(prefix.len() as int) == prefix
}

/// Whether a text begins with another.
pub fn starts_with(text: &[char], prefix: &[char]) -> (begins: bool)
    ensures
        begins == is_prefix(prefix@, text@),
{
    if prefix.len() > text.len() {
        return false;
    }
    let mut i: usize = 0;
    while i < prefix.len()
        invariant
            i <= prefix@.len() <= text@.len(),
            forall|k: int| 0 <= k < i ==> text@[k] == prefix@[k],
        decreases prefix@.len() - i,
    {
        if text[i] != prefix[i] {
            proof {
                assert(text@.take(prefix@.len() as int)[i as int] == text@[i as int]);
            }
            return false;
        }
        i = i + 1;
    }
    proof {
        assert(text@.take(prefix@.len() as int) =~= prefix@);
    }
    true
}

/// Whether a text begins with a slash.
pub open spec fn is_command_line(text: Seq<char>) -> bool {
    text.len() > 0 && text[0] == '/'
}

/// Whether the name of the command at place `i` begins with `query`.
pub open spec fn begins_with(query: Seq<char>, i: int) -> bool {
    is_prefix(query, slash_command_of(i).name@)
}

/// Whether the name of the command at place `i` holds the characters of
/// `query` in their order without beginning with it.
pub open spec fn resembles(query: Seq<char>, i: int) -> bool {
    !begins_with(query, i) && is_fuzzy_match(slash_command_of(i).name@, query)
}

/// The commands that are suggested for a query: those whose names begin
/// with it, in the order of the table, and then those whose names hold its
/// characters in their order.
pub open spec fn suggested_for(query: Seq<char>) -> Seq<usize> {
    passing(|i: int| begins_with(query, i), 0, SLASH_COMMAND_COUNT as int) + passing(
        |i: int| resembles(query, i),
        0,
        SLASH_COMMAND_COUNT as int,
    )
}

/// The places of the table of commands from 0 up to `count`.
pub open spec fn first_places(count: int) -> Seq<usize> {
    passing(|i: int| true, 0, count)
}

/// Whether a text holds a blank.
pub open spec fn has_blank(text: Seq<char>) -> bool {
    exists|i: int| 0 <= i < text.len() && text[i] == ' '
}

/// What is suggested for an input line: every command where nothing is
/// typed behind the slash; nothing once a blank is typed; else the
/// commands suggested for what is typed, taken in lower case.
pub open spec fn suggestions_for(input: Seq<char>) -> Seq<usize> {
    let query = without_slash(input);
    if query.len() == 0 {
        first_places(SLASH_COMMAND_COUNT as int)
    } else if has_blank(lowercased(query)) {
        Seq::empty()
    } else {
        suggested_for(lowercased(query))
    }
}

/// The suggestion that is picked when suggestions are made: the first one,
/// or none where there is none or a blank has been typed.
pub open spec fn first_pick(input: Seq<char>) -> Option<usize> {
    if suggestions_for(input).len() > 0 {
        Some(0usize)
    } else {
        None
    }
}

/// Whether a text holds a blank.
fn holds_blank(text: &[char]) -> (found: bool)
    ensures
        found == has_blank(text@),
{
    let mut i: usize = 0;
    while i < text.len()
        invariant
            i <= text@.len(),
            forall|k: int| 0 <= k < i ==> text@[k] != ' ',
        decreases text@.len() - i,
    {
        if text[i] == ' ' {
            return true;
        }
        i = i + 1;
    }
    false
}

/// Finds the commands that are suggested for an input line.
pub fn find_suggestions(input: &str) -> (places: Vec<usize>)
    ensures
        places@ == suggestions_for(input@),
        forall|k: int| 0 <= k < places@.len() ==> #[trigger] places@[k] < SLASH_COMMAND_COUNT,
{
    let chars = chars_of(input);
    let start: usize = if chars.len() > 0 && chars[0] == '/' {
        1
    } else {
        0
    };
    let mut places: Vec<usize> = Vec::new();
    if start >= chars.len() {
        let mut i: usize = 0;
        while i < SLASH_COMMAND_COUNT
            invariant
                i <= SLASH_COMMAND_COUNT,
                places@ == first_places(i as int),
                forall|k: int| 0 <= k < places@.len() ==> #[trigger] places@[k] < SLASH_COMMAND_COUNT,
            decreases SLASH_COMMAND_COUNT - i,
        {
            places.push(i);
            i = i + 1;
        }
        proof {
            assert(without_slash(chars@) =~= Seq::<char>::empty());
        }
        return places;
    }
    let query_text = string_of(vstd::slice::slice_subrange(chars.as_slice(), start, chars.len()));
    proof {
        assert(query_text@ =~= without_slash(chars@));
    }
    let lowered = lowercase_text(query_text.as_str());
    let query = chars_of(lowered.as_str());
    if holds_blank(query.as_slice()) {
        return places;
    }
    let ghost begins = |i: int| begins_with(query@, i);
    let ghost likes = |i: int| resembles(query@, i);
    let mut i: usize = 0;
    while i < SLASH_COMMAND_COUNT
        invariant
            i <= SLASH_COMMAND_COUNT,
            begins == |i: int| begins_with(query@, i),
            places@ == passing(begins, 0, i as int),
            forall|k: int| 0 <= k < places@.len() ==> #[trigger] places@[k] < SLASH_COMMAND_COUNT,
        decreases SLASH_COMMAND_COUNT - i,
    {
        let name = chars_of(slash_command(i).name);
        if starts_with(name.as_slice(), query.as_slice()) {
            places.push(i);
        }
        i = i + 1;
    }
    let ghost first = places@;
    let mut j: usize = 0;
    while j < SLASH_COMMAND_COUNT
        invariant
            j <= SLASH_COMMAND_COUNT,
            likes == |i: int| resembles(query@, i),
            lowered@ == query@,
            places@ == first + passing(likes, 0, j as int),
            forall|k: int| 0 <= k < places@.len() ==> #[trigger] places@[k] < SLASH_COMMAND_COUNT,
        decreases SLASH_COMMAND_COUNT - j,
    {
        let command = slash_command(j);
        let name = chars_of(command.name);
        if !starts_with(name.as_slice(), query.as_slice()) && fuzzy_match(
            command.name,
            lowered.as_str(),
        ) {
            let ghost so_far = places@;
            places.push(j);
            proof {
                assert(places@ =~= first + passing(likes, 0, j + 1));
            }
        }
        j = j + 1;
    }
    places
}

impl App {
    /// Whether the suggestions are those for the input line.
    pub open spec fn suggests_for_input(self) -> bool {
        &&& self.suggest.commands@ == suggestions_for(self.input.text@)
        &&& self.suggest.index == first_pick(self.input.text@)
    }

    /// Suggests commands for what has been typed.
    fn update_suggestions(&mut self)
        ensures
            *final(self) == (App { suggest: final(self).suggest, ..*old(self) }),
            final(self).suggests_for_input(),
    {
        self.suggest.commands = find_suggestions(self.input.text.as_str());
        self.suggest.index = if self.suggest.commands.len() > 0 {
            Some(0)
        } else {
            None
        };
    }

    /// The expression that marks what the input would search for: none for
    /// an empty input or a command line, nor where the regex engine refuses
    /// the pattern.
    pub open spec fn live_pattern(input: Seq<char>) -> Option<Regex> {
        if input.len() == 0 || is_command_line(input) {
            None
        } else {
            regex_new(literal_pattern(input))
        }
    }

    /// Renews the expression that marks what the input would search for.
    fn update_live_highlight(&mut self)
        ensures
            *final(self) == (App {
                input: InputLine {
                    live_regex: App::live_pattern(old(self).input.text@),
                    ..old(self).input
                },
                ..*old(self)
            }),
    {
        let chars = chars_of(self.input.text.as_str());
        if chars.len() == 0 || chars[0] == '/' {
            self.input.live_regex = None;
            return ;
        }
        let pattern = literal_pattern_text(self.input.text.as_str());
        self.input.live_regex = match compile(pattern.as_str()) {
            Ok(re) => Some(re),
            Err(_) => None,
        };
    }

    /// Whether what is shown with the input line, the suggestions and the
    /// expression that marks what it would search for, is in step with a
    /// text that has just been typed or changed: an empty input ends
    /// typing; a command line has suggestions and marks nothing; any other
    /// input has no suggestions and marks what it would search for.
    pub open spec fn in_step(self) -> bool {
        let text = self.input.text@;
        if text.len() == 0 {
            &&& self.suggest.commands@.len() == 0
            &&& self.suggest.index is None
            &&& self.input.live_regex is None
        } else if is_command_line(text) {
            &&& self.suggests_for_input()
            &&& self.input.live_regex is None
        } else {
            &&& self.suggest.commands@.len() == 0
            &&& self.suggest.index is None
            &&& self.input.live_regex == App::live_pattern(text)
        }
    }

    /// Brings what is shown with the input line in step with its text.
    fn follow_input(&mut self)
        ensures
            *final(self) == (App {
                suggest: final(self).suggest,
                input: InputLine { live_regex: final(self).input.live_regex, ..old(self).input },
                ..*old(self)
            }),
            final(self).in_step(),
    {
        let chars = chars_of(self.input.text.as_str());
        if chars.len() == 0 {
            self.suggest.commands.clear();
            self.suggest.index = None;
            self.input.live_regex = None;
        } else if chars[0] == '/' {
            self.update_suggestions();
            self.input.live_regex = None;
        } else {
            self.suggest.commands.clear();
            self.suggest.index = None;
            self.update_live_highlight();
        }
    }

    /// Whether this is the state after `ch` has been typed in `before`: it
    /// stands in the input before what the cursor stood before, the cursor
    /// behind it; typing has begun, and the status line is cleared with it.
    pub open spec fn typed_from(self, before: App, ch: char) -> bool {
        let edit = typed(before.input.text@, cursor_char(before.input.text@, before.input.cursor as int), ch);
        &&& self == (App {
            input: self.input,
            suggest: self.suggest,
            engine: Engine {
                status: if before.input.mode == InputMode::Idle {
                    None
                } else {
                    before.engine.status
                },
                ..before.engine
            },
            ..before
        })
        &&& self.input == (InputLine {
            text: self.input.text,
            cursor: self.input.cursor,
            mode: InputMode::Typing,
            live_regex: self.input.live_regex,
            ..before.input
        })
        &&& self.input.text@ == edit.text
        &&& self.input.cursor == encode_utf8(edit.text.take(edit.at)).len()
        &&& self.in_step()
    }

    /// Types a character into the input line.
    pub fn type_char(&mut self, ch: char)
        ensures
            final(self).typed_from(*old(self), ch),
    {
        if self.input.mode == InputMode::Idle {
            self.input.mode = InputMode::Typing;
            self.engine.status = None;
        }
        let (text, cursor) = insert_char(self.input.text.as_str(), self.input.cursor, ch);
        self.input.text = text;
        self.input.cursor = cursor;
        self.follow_input();
    }

    /// Whether this is the state after the input of `before` has become
    /// `edit`: the text and the cursor are those of the edit, typing ends
    /// with an empty input, and what is shown with the input is in step.
    pub open spec fn edited_from(self, before: App, edit: crate::input::Edit) -> bool {
        &&& self == (App { input: self.input, suggest: self.suggest, ..before })
        &&& self.input == (InputLine {
            text: self.input.text,
            cursor: self.input.cursor,
            mode: if edit.text.len() == 0 {
                InputMode::Idle
            } else {
                before.input.mode
            },
            live_regex: self.input.live_regex,
            ..before.input
        })
        &&& self.input.text@ == edit.text
        &&& self.input.cursor == encode_utf8(edit.text.take(edit.at)).len()
        &&& self.in_step()
    }

    /// Takes the character before the cursor out of the input line.
    /// Nothing changes where the cursor stands at the start.
    pub fn input_backspace(&mut self)
        ensures
            old(self).input.cursor == 0 ==> *final(self) == *old(self),
            old(self).input.cursor > 0 ==> final(self).edited_from(
                *old(self),
                erased_before(
                    old(self).input.text@,
                    cursor_char(old(self).input.text@, old(self).input.cursor as int),
                ),
            ),
    {
        if self.input.cursor == 0 {
            return ;
        }
        let (text, cursor) = remove_before(self.input.text.as_str(), self.input.cursor);
        self.input.text = text;
        self.input.cursor = cursor;
        if self.input.text.as_str().is_empty() {
            self.input.mode = InputMode::Idle;
        }
        self.follow_input();
    }

    /// Takes the character at the cursor out of the input line. Nothing
    /// changes where the cursor stands at the end.
    pub fn input_delete(&mut self)
        ensures
            old(self).input.cursor >= encode_utf8(old(self).input.text@).len() ==> *final(self)
                == *old(self),
            old(self).input.cursor < encode_utf8(old(self).input.text@).len() ==> final(self).edited_from(
                *old(self),
                erased_at(
                    old(self).input.text@,
                    cursor_char(old(self).input.text@, old(self).input.cursor as int),
                ),
            ),
    {
        if self.input.cursor >= self.input.text.as_str().as_bytes().len() {
            return ;
        }
        let (text, cursor) = remove_at(self.input.text.as_str(), self.input.cursor);
        self.input.text = text;
        self.input.cursor = cursor;
        if self.input.text.as_str().is_empty() {
            self.input.mode = InputMode::Idle;
        }
        self.follow_input();
    }

    /// Moves the cursor one character to the left.
    pub fn input_left(&mut self)
        ensures
            *final(self) == (App {
                input: InputLine {
                    cursor: encode_utf8(
                        old(self).input.text@.take(
                            left_of(
                                cursor_char(old(self).input.text@, old(self).input.cursor as int),
                            ),
                        ),
                    ).len() as usize,
                    ..old(self).input
                },
                ..*old(self)
            }),
    {
        self.input.cursor = step_left(self.input.text.as_str(), self.input.cursor);
    }

    /// Moves the cursor one character to the right.
    pub fn input_right(&mut self)
        ensures
            *final(self) == (App {
                input: InputLine {
                    cursor: encode_utf8(
                        old(self).input.text@.take(
                            right_of(
                                old(self).input.text@,
                                cursor_char(old(self).input.text@, old(self).input.cursor as int),
                            ),
                        ),
                    ).len() as usize,
                    ..old(self).input
                },
                ..*old(self)
            }),
    {
        self.input.cursor = step_right(self.input.text.as_str(), self.input.cursor);
    }

    /// Moves the cursor to the start of the input line.
    pub fn input_home(&mut self)
        ensures
            *final(self) == (App { input: InputLine { cursor: 0, ..old(self).input }, ..*old(self) }),
    {
        self.input.cursor = 0;
    }

    /// Moves the cursor to the end of the input line.
    pub fn input_end(&mut self)
        ensures
            *final(self) == (App {
                input: InputLine {
                    cursor: encode_utf8(old(self).input.text@).len() as usize,
                    ..old(self).input
                },
                ..*old(self)
            }),
    {
        self.input.cursor = self.input.text.as_str().as_bytes().len();
    }

    /// Whether the input line of `self` is empty and idle, with nothing
    /// suggested and nothing marked, and the history of `before`.
    pub open spec fn input_cleared_from(self, before: App) -> bool {
        &&& self.input == (InputLine {
            text: self.input.text,
            cursor: 0,
            mode: InputMode::Idle,
            live_regex: None,
            history_index: None,
            ..before.input
        })
        &&& self.input.text@.len() == 0
        &&& self.suggest.commands@.len() == 0
        &&& self.suggest.index is None
    }

    /// Empties the input line and ends typing.
    fn clear_input(&mut self)
        ensures
            *final(self) == (App {
                input: final(self).input,
                suggest: final(self).suggest,
                ..*old(self)
            }),
            final(self).input_cleared_from(*old(self)),
    {
        self.input.text = String::new();
        self.input.cursor = 0;
        self.input.mode = InputMode::Idle;
        self.suggest.commands.clear();
        self.suggest.index = None;
        self.input.history_index = None;
        self.input.live_regex = None;
    }

    /// Gives up what has been typed, and the search with it: a search
    /// under way is told to stop, and nothing is searched for any more.
    pub fn cancel_input(&mut self)
        ensures
            *final(self) == (App {
                input: final(self).input,
                suggest: final(self).suggest,
                engine: final(self).engine,
                ..*old(self)
            }),
            final(self).input_cleared_from(*old(self)),
            final(self).engine == (Engine {
                search: final(self).engine.search,
                search_generation: next_generation(old(self).engine.search_generation),
                ..old(self).engine
            }),
            final(self).engine.search.pattern@.len() == 0,
            final(self).engine.search.regex is None,
            final(self).engine.search.matches@.len() == 0,
            !final(self).engine.search.searching,
    {
        self.clear_input();
        self.engine.cancel_search();
    }

    /// Puts what has been entered into the history.
    fn push_history(&mut self, entry: String)
        ensures
            final(self).remembered_from(*old(self), entry@),
    {
        let ghost before = self.input.history@;
        let n = self.input.history.len();
        let same = n > 0 && same_text(self.input.history[n - 1].as_str(), entry.as_str());
        if !same {
            self.input.history.push(entry);
            if self.input.history.len() > HISTORY_LIMIT {
                self.input.history.remove(0);
                proof {
                    assert(self.input.history@ =~= before.push(entry).drop_first());
                    assert(self.input.history@.drop_last() =~= before.drop_first());
                }
            } else {
                proof {
                    assert(self.input.history@.drop_last() =~= before);
                }
            }
        }
        self.input.history_index = None;
    }

    /// The expression that marks matches in the lines on view: while
    /// typing, that of the input; else that of the search, or, where
    /// nothing is searched for, that of the filter.
    pub fn highlight_regex(&self) -> (res: Option<&Regex>)
        ensures
            match res {
                Some(re) => Some(*re),
                None => None,
            } == if self.input.mode == InputMode::Typing {
                self.input.live_regex
            } else if self.engine.search.regex is Some {
                self.engine.search.regex
            } else {
                self.engine.filter_highlight
            },
    {
        if self.input.mode == InputMode::Typing {
            self.input.live_regex.as_ref()
        } else if self.engine.search.regex.is_some() {
            self.engine.search.regex.as_ref()
        } else {
            self.engine.filter_highlight.as_ref()
        }
    }

    /// How many suggestions are shown.
    pub open spec fn shown_suggestions(self) -> int {
        if self.suggest.commands@.len() < SUGGESTIONS_SHOWN {
            self.suggest.commands@.len() as int
        } else {
            SUGGESTIONS_SHOWN as int
        }
    }

    /// Picks the suggestion after the one that is picked, the first after
    /// the last of those shown.
    pub fn suggestion_next(&mut self)
        ensures
            *final(self) == (App {
                suggest: Suggestions {
                    index: if old(self).shown_suggestions() == 0 {
                        old(self).suggest.index
                    } else {
                        match old(self).suggest.index {
                            Some(i) => if i + 1 < old(self).shown_suggestions() {
                                Some((i + 1) as usize)
                            } else {
                                Some(0usize)
                            },
                            None => Some(0usize),
                        }
                    },
                    ..old(self).suggest
                },
                ..*old(self)
            }),
    {
        let shown = if self.suggest.commands.len() < SUGGESTIONS_SHOWN {
            self.suggest.commands.len()
        } else {
            SUGGESTIONS_SHOWN
        };
        if shown == 0 {
            return ;
        }
        let next = match self.suggest.index {
            Some(i) => if i < shown && i + 1 < shown {
                i + 1
            } else {
                0
            },
            None => 0,
        };
        self.suggest.index = Some(next);
    }

    /// Picks the suggestion before the one that is picked, the last of
    /// those shown before the first.
    pub fn suggestion_prev(&mut self)
        ensures
            *final(self) == (App {
                suggest: Suggestions {
                    index: if old(self).shown_suggestions() == 0 {
                        old(self).suggest.index
                    } else {
                        match old(self).suggest.index {
                            Some(i) => if i == 0 {
                                Some((old(self).shown_suggestions() - 1) as usize)
                            } else {
                                Some((i - 1) as usize)
                            },
                            None => Some((old(self).shown_suggestions() - 1) as usize),
                        }
                    },
                    ..old(self).suggest
                },
                ..*old(self)
            }),
    {
        let shown = if self.suggest.commands.len() < SUGGESTIONS_SHOWN {
            self.suggest.commands.len()
        } else {
            SUGGESTIONS_SHOWN
        };
        if shown == 0 {
            return ;
        }
        let prev = match self.suggest.index {
            Some(i) => if i == 0 {
                shown - 1
            } else {
                i - 1
            },
            None => shown - 1,
        };
        self.suggest.index = Some(prev);
    }
}

/// Whether two texts are the same.
pub fn same_text(a: &str, b: &str) -> (same: bool)
    ensures
        same == (a@ == b@),
{
    let chars = chars_of(a);
    crate::command::is_word(chars.as_slice(), b)
}

/// Whether `after` is the history `before` with `text` entered: unchanged
/// where the text is its last entry already; else the text is its last
/// entry, and its first entry is gone where it would hold more than
/// `HISTORY_LIMIT`.
pub open spec fn history_grown(before: Seq<String>, after: Seq<String>, text: Seq<char>) -> bool {
    if before.len() > 0 && before.last()@ == text {
        after == before
    } else {
        &&& after.len() > 0
        &&& after.last()@ == text
        &&& after.drop_last() == if before.len() + 1 > HISTORY_LIMIT {
            before.drop_first()
        } else {
            before
        }
    }
}

impl App {
    /// Whether `self` is `before` with `text` entered into the history.
    pub open spec fn remembered_from(self, before: App, text: Seq<char>) -> bool {
        &&& self == (App {
            input: InputLine {
                history: self.input.history,
                history_index: None,
                ..before.input
            },
            ..before
        })
        &&& history_grown(before.input.history@, self.input.history@, text)
    }

    /// Whether this is the state after the input line of `before` has been
    /// entered: an input of nothing but whitespace changes nothing; else
    /// the input, without the whitespace around it, goes into the history
    /// and is run as a command, where it begins with a slash, or searched
    /// for as it is written; and the input line is emptied.
    pub open spec fn entered_from(self, before: App) -> bool {
        let text = trimmed(before.input.text@);
        if text.len() == 0 {
            self == before
        } else {
            exists|kept: App, done: App|
                {
                    &&& kept.remembered_from(before, text)
                    &&& if is_command_line(text) {
                        done.ran(
                            kept,
                            crate::command::kind_of(crate::command::command_name(text)),
                            crate::command::command_name(text),
                            crate::command::command_arg(text),
                        )
                    } else {
                        done.same_but_engine(kept) && done.engine.search_begun_from(
                            kept.engine,
                            text,
                            literal_pattern(text),
                        )
                    }
                    &&& self == (App { input: self.input, suggest: self.suggest, ..done })
                    &&& self.input_cleared_from(done)
                }
        }
    }

    /// Enters the input line.
    pub fn submit_input(&mut self)
        requires
            old(self).wf(),
        ensures
            final(self).wf(),
            final(self).entered_from(*old(self)),
    {
        let text = trim_text(self.input.text.as_str()).to_owned();
        if text.as_str().is_empty() {
            return ;
        }
        let ghost before = *self;
        self.push_history(text.clone());
        let ghost kept = *self;
        let chars = chars_of(text.as_str());
        let command = chars.len() > 0 && chars[0] == '/';
        if command {
            self.execute_command(text.as_str());
        } else {
            self.engine.execute_search(text.as_str());
        }
        let ghost done = *self;
        self.clear_input();
        proof {
            let said = trimmed(before.input.text@);
            assert(said == text@);
            assert(command == is_command_line(said));
            assert(kept.remembered_from(before, said));
            assert(if is_command_line(said) {
                done.ran(
                    kept,
                    crate::command::kind_of(crate::command::command_name(said)),
                    crate::command::command_name(said),
                    crate::command::command_arg(said),
                )
            } else {
                done.same_but_engine(kept) && done.engine.search_begun_from(
                    kept.engine,
                    said,
                    literal_pattern(said),
                )
            });
            assert(self.input_cleared_from(done));
            assert(*self == (App { input: self.input, suggest: self.suggest, ..done }));
        }
    }

    /// The input line that calls the command at place `place` of the table:
    /// a slash and the command's name, and a blank where the command takes
    /// something.
    pub open spec fn command_line_for(place: int) -> Seq<char> {
        if slash_command_of(place).has_arg {
            "/"@ + slash_command_of(place).name@ + " "@
        } else {
            "/"@ + slash_command_of(place).name@
        }
    }

    /// Whether `self` is `before` with the command line for the suggestion
    /// that is picked in the input, and the cursor at its end.
    pub open spec fn filled_in_from(self, before: App) -> bool {
        let picked = before.suggest.commands@[before.suggest.index.unwrap() as int];
        &&& self == (App {
            input: InputLine { text: self.input.text, cursor: self.input.cursor, ..before.input },
            ..before
        })
        &&& self.input.text@ == App::command_line_for(picked as int)
        &&& self.input.cursor == encode_utf8(self.input.text@).len()
    }

    /// Whether this is the state after the suggestion that is picked in
    /// `before` has been taken: a command that takes something stands in
    /// the input, for what it takes to be typed; any other command is
    /// entered at once. Nothing changes where no suggestion is picked.
    pub open spec fn accepted_from(self, before: App) -> bool {
        match before.suggest.index {
            Some(idx) => if idx < before.suggest.commands@.len() {
                let picked = before.suggest.commands@[idx as int];
                exists|filled: App|
                    {
                        &&& filled.filled_in_from(before)
                        &&& if slash_command_of(picked as int).has_arg {
                            self == (App {
                                suggest: Suggestions { commands: self.suggest.commands, index: None },
                                ..filled
                            }) && self.suggest.commands@.len() == 0
                        } else {
                            self.entered_from(filled)
                        }
                    }
            } else {
                self == before
            },
            None => self == before,
        }
    }

    /// Takes the suggestion that is picked.
    pub fn accept_suggestion(&mut self)
        requires
            old(self).wf(),
        ensures
            final(self).wf(),
            final(self).accepted_from(*old(self)),
    {
        let idx = match self.suggest.index {
            Some(i) => i,
            None => {
                return ;
            },
        };
        if idx >= self.suggest.commands.len() {
            return ;
        }
        let command = slash_command(self.suggest.commands[idx]);
        let mut text = "/".to_owned();
        text.append(command.name);
        if command.has_arg {
            text.append(" ");
        }
        self.input.cursor = text.as_str().as_bytes().len();
        self.input.text = text;
        let ghost filled = *self;
        proof {
            assert(filled.filled_in_from(*old(self)));
        }
        if command.has_arg {
            self.suggest.commands.clear();
            self.suggest.index = None;
        } else {
            self.submit_input();
        }
    }
}

} // verus!
