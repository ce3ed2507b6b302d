//! The state of a search: the expression, the lines that it matches, and
//! which of them is current.

use crate::log::reader::LogSource;
use crate::matching::{batch_stop, matching_lines_in, search_lines};
use crate::pattern::{compile, error_message, escape, regex_escaped, regex_new};
use regex::Regex;
use vstd::prelude::*;
use vstd::string::*;

verus! {

/// What is put before an escaped text to search for it in any letter case.
pub const IGNORE_CASE: &'static str = "(?i)";

/// The pattern that finds a text as it is written, in any letter case.
pub open spec fn literal_pattern(text: Seq<char>) -> Seq<char> {
    IGNORE_CASE@ + regex_escaped(text)
}

/// Builds the pattern that finds a text as it is written, in any letter
/// case.
pub fn literal_pattern_text(text: &str) -> (res: String)
    ensures
        res@ == literal_pattern(text@),
{
    let escaped = escape(text);
    let mut pattern = IGNORE_CASE.to_owned();
    pattern.append(escaped.as_str());
    pattern
}

/// The state of a search.
pub struct SearchState {
    /// What was asked for, as it was typed.
    pub pattern: String,
    /// The compiled expression; `None` where nothing is searched for or the
    /// pattern was refused.
    pub regex: Option<Regex>,
    /// Why the pattern was refused.
    pub error: Option<String>,
    /// The lines found so far, in ascending order.
    pub matches: Vec<usize>,
    /// The place in `matches` of the current match.
    pub current_match: Option<usize>,
    /// The next line to search.
    pub search_cursor: usize,
    /// The number of lines that the search covers.
    pub search_total: usize,
    /// Whether the search is still under way.
    pub searching: bool,
}

/// The place of the first of `matches` that is at least `from_line`, or 0
/// where none is; looked for from place `from` on.
pub open spec fn nearest_from(matches: Seq<usize>, from_line: usize, from: int) -> int
    decreases matches.len() - from,
{
    if from < 0 || from >= matches.len() {
        0
    } else if matches[from] >= from_line {
        from
    } else {
        nearest_from(matches, from_line, from + 1)
    }
}

/// The place of the first of `matches` that is at least `from_line`, or 0
/// where none is.
pub open spec fn nearest(matches: Seq<usize>, from_line: usize) -> int {
    nearest_from(matches, from_line, 0)
}

/// What `nearest` finds: the first place whose match is at least
/// `from_line`; 0 where every match is smaller.
pub proof fn lemma_nearest(matches: Seq<usize>, from_line: usize, from: int)
    requires
        0 <= from <= matches.len(),
    ensures
        ({
            let at = nearest_from(matches, from_line, from);
            if exists|k: int| from <= k < matches.len() && matches[k] >= from_line {
                &&& from <= at < matches.len()
                &&& matches[at] >= from_line
                &&& forall|k: int| from <= k < at ==> matches[k] < from_line
            } else {
                at == 0
            }
        }),
    decreases matches.len() - from,
{
    if from < matches.len() && matches[from] < from_line {
        lemma_nearest(matches, from_line, from + 1);
        if exists|k: int| from + 1 <= k < matches.len() && matches[k] >= from_line {
            let k = choose|k: int| from + 1 <= k < matches.len() && matches[k] >= from_line;
            assert(from <= k < matches.len() && matches[k] >= from_line);
        } else {
            assert forall|k: int| from <= k < matches.len() implies matches[k] < from_line by {
                if k > from {
                    assert(!(from + 1 <= k < matches.len() && matches[k] >= from_line));
                }
            }
        }
    } else if from < matches.len() {
        assert(from <= from < matches.len() && matches[from] >= from_line);
    }
}

/// The place after `current` in a list of `count` matches, the first place
/// after the last one; the first place where there is no current match.
pub open spec fn place_after(current: Option<usize>, count: int) -> int {
    match current {
        Some(i) => if i + 1 < count {
            i + 1
        } else {
            0
        },
        None => 0,
    }
}

/// The place before `current` in a list of `count` matches, the last place
/// before the first one; the last place where there is no current match.
pub open spec fn place_before(current: Option<usize>, count: int) -> int {
    match current {
        Some(i) => if i == 0 {
            count - 1
        } else {
            i - 1
        },
        None => count - 1,
    }
}

impl SearchState {
    /// Whether the current match is one of the matches.
    pub open spec fn wf(self) -> bool {
        self.current_match matches Some(i) ==> i < self.matches@.len()
    }

    /// Whether the regex engine refuses `source`, the pattern that is
    /// compiled for the text `pattern` that is asked for. Nothing is
    /// compiled for the empty text.
    pub open spec fn is_refused(pattern: Seq<char>, source: Seq<char>) -> bool {
        pattern.len() > 0 && regex_new(source) is None
    }

    /// Whether this is a state in which `pattern` has just been taken for
    /// what is searched for, with `source` the pattern that was compiled
    /// for it: no matches yet, and no error.
    pub open spec fn holds_pattern(self, pattern: Seq<char>, source: Seq<char>) -> bool {
        &&& self.pattern@ == pattern
        &&& self.matches@.len() == 0
        &&& self.current_match is None
        &&& self.error is None
        &&& self.regex == if pattern.len() == 0 {
            None
        } else {
            regex_new(source)
        }
    }

    /// Whether this is the state after `pattern` was asked for in `before`,
    /// with `source` the pattern that is compiled for it. Where the regex
    /// engine refuses it, the reason is kept and nothing else changes:
    /// what was searched for, its matches and the current match stay.
    /// Else the pattern is taken and the matches are forgotten.
    pub open spec fn set_from(self, before: SearchState, pattern: Seq<char>, source: Seq<char>) -> bool {
        if SearchState::is_refused(pattern, source) {
            &&& self == (SearchState { error: self.error, ..before })
            &&& self.error is Some
        } else {
            &&& self.holds_pattern(pattern, source)
            &&& self.search_cursor == before.search_cursor
            &&& self.search_total == before.search_total
            &&& self.searching == before.searching
        }
    }

    /// A state in which nothing is searched for.
    pub fn new() -> (state: Self)
        ensures
            state.wf(),
            state.pattern@.len() == 0,
            state.regex is None,
            state.error is None,
            state.matches@.len() == 0,
            state.current_match is None,
            state.search_cursor == 0,
            state.search_total == 0,
            !state.searching,
    {
        SearchState {
            pattern: String::new(),
            regex: None,
            error: None,
            matches: Vec::new(),
            current_match: None,
            search_cursor: 0,
            search_total: 0,
            searching: false,
        }
    }

    /// Sets what is searched for to a text as it is written, in any letter
    /// case, and forgets the matches. The empty text searches for nothing.
    /// Should the regex engine refuse the pattern that is made for the
    /// text, the reason is kept in `error` and nothing else changes.
    pub fn set_literal(&mut self, pattern: &str)
        ensures
            final(self).set_from(*old(self), pattern@, literal_pattern(pattern@)),
            old(self).wf() ==> final(self).wf(),
    {
        if pattern.as_bytes().len() == 0 {
            self.install(pattern, None);
        } else {
            let source = literal_pattern_text(pattern);
            self.install(pattern, Some(source.as_str()));
        }
    }

    /// Sets what is searched for to a regular expression and forgets the
    /// matches. Where the expression is refused, the reason is kept in
    /// `error` and nothing else changes: what was searched for before, its
    /// matches and the current match stay. The empty text searches for
    /// nothing.
    pub fn set_regex(&mut self, pattern: &str)
        ensures
            final(self).set_from(*old(self), pattern@, pattern@),
            old(self).wf() ==> final(self).wf(),
    {
        if pattern.as_bytes().len() == 0 {
            self.install(pattern, None);
        } else {
            self.install(pattern, Some(pattern));
        }
    }

    /// Takes `pattern` for what was asked for and compiles `source` for it.
    fn install(&mut self, pattern: &str, source: Option<&str>)
        requires
            source is None <==> pattern@.len() == 0,
        ensures
            final(self).set_from(
                *old(self),
                pattern@,
                match source {
                    Some(text) => text@,
                    None => Seq::empty(),
                },
            ),
            old(self).wf() ==> final(self).wf(),
    {
        let regex = match source {
            Some(text) => {
                match compile(text) {
                    Ok(re) => Some(re),
                    Err(e) => {
                        self.error = Some(error_message(&e));
                        return ;
                    },
                }
            },
            None => None,
        };
        self.pattern = pattern.to_owned();
        self.error = None;
        self.matches.clear();
        self.current_match = None;
        self.regex = regex;
    }

    /// Finds every line of the first `total_lines` that the expression
    /// matches, in one go.
    pub fn find_matches(&mut self, total_lines: usize, source: &LogSource)
        ensures
            final(self).wf(),
            final(self).current_match is None,
            final(self).regex == old(self).regex,
            final(self).matches@ == match old(self).regex {
                Some(re) => matching_lines_in(
                    &re,
                    source.bytes(),
                    source.index_view().line_offsets,
                    source.bytes().len() as int,
                    0,
                    total_lines as int,
                ),
                None => Seq::empty(),
            },
    {
        self.matches.clear();
        self.current_match = None;
        match &self.regex {
            Some(re) => {
                let data = source.data();
                let out = search_lines(
                    data,
                    re,
                    source.index().line_offsets().as_slice(),
                    data.len(),
                    0,
                    total_lines,
                    total_lines,
                    None,
                );
                self.matches = out.matches;
            },
            None => {},
        }
    }

    /// Begins a search over `total_lines` lines: no matches yet, the first
    /// line next.
    pub fn start_search(&mut self, total_lines: usize)
        ensures
            final(self).wf(),
            final(self).matches@.len() == 0,
            final(self).current_match is None,
            final(self).search_cursor == 0,
            final(self).search_total == total_lines,
            final(self).searching,
            final(self).regex == old(self).regex,
            final(self).pattern == old(self).pattern,
            final(self).error == old(self).error,
    {
        self.matches.clear();
        self.current_match = None;
        self.search_cursor = 0;
        self.search_total = total_lines;
        self.searching = true;
    }

    /// Searches the next `batch_size` lines and adds those that match to
    /// the matches. Returns whether the search is still under way: it ends
    /// with the last line, or at once where there is no expression.
    pub fn search_batch(&mut self, batch_size: usize, source: &LogSource) -> (more: bool)
        requires
            old(self).wf(),
        ensures
            final(self).wf(),
            more == final(self).searching,
            *final(self) == (SearchState {
                matches: final(self).matches,
                search_cursor: final(self).search_cursor,
                searching: final(self).searching,
                ..*old(self)
            }),
            match old(self).regex {
                Some(re) => {
                    &&& final(self).search_cursor == batch_stop(
                        old(self).search_total as int,
                        old(self).search_cursor,
                        batch_size,
                    )
                    &&& final(self).matches@ == old(self).matches@ + matching_lines_in(
                        &re,
                        source.bytes(),
                        source.index_view().line_offsets,
                        source.bytes().len() as int,
                        old(self).search_cursor as int,
                        final(self).search_cursor as int,
                    )
                    &&& final(self).searching == (old(self).searching && final(self).search_cursor
                        < old(self).search_total)
                },
                None => {
                    &&& !final(self).searching
                    &&& final(self).search_cursor == old(self).search_cursor
                    &&& final(self).matches@ == old(self).matches@
                },
            },
    {
        match &self.regex {
            Some(re) => {
                let data = source.data();
                let mut out = search_lines(
                    data,
                    re,
                    source.index().line_offsets().as_slice(),
                    data.len(),
                    self.search_cursor,
                    batch_size,
                    self.search_total,
                    None,
                );
                self.matches.append(&mut out.matches);
                self.search_cursor = out.cursor;
                if out.cursor >= self.search_total {
                    self.searching = false;
                }
                self.searching
            },
            None => {
                self.searching = false;
                false
            },
        }
    }

    /// Takes in what a batch searched elsewhere found: adds the lines to
    /// the matches and moves on to `cursor`; the search has ended where
    /// `done` says so.
    pub fn apply_batch(&mut self, matches: Vec<usize>, cursor: usize, done: bool)
        requires
            old(self).wf(),
        ensures
            final(self).wf(),
            final(self).matches@ == old(self).matches@ + matches@,
            final(self).search_cursor == cursor,
            final(self).searching == (old(self).searching && !done),
            *final(self) == (SearchState {
                matches: final(self).matches,
                search_cursor: final(self).search_cursor,
                searching: final(self).searching,
                ..*old(self)
            }),
    {
        let mut found = matches;
        self.matches.append(&mut found);
        self.search_cursor = cursor;
        if done {
            self.searching = false;
        }
    }

    /// Makes the first match at or after `from_line` the current one, or
    /// the first match of all where none is; returns its line. `None`
    /// where there are no matches.
    pub fn jump_to_nearest(&mut self, from_line: usize) -> (line: Option<usize>)
        requires
            old(self).wf(),
        ensures
            final(self).wf(),
            *final(self) == (SearchState {
                current_match: final(self).current_match,
                ..*old(self)
            }),
            old(self).matches@.len() == 0 ==> line is None && final(self).current_match
                == old(self).current_match,
            old(self).matches@.len() > 0 ==> final(self).current_match == Some(
                nearest(old(self).matches@, from_line) as usize,
            ) && line == Some(old(self).matches@[nearest(old(self).matches@, from_line)]),
    {
        let n = self.matches.len();
        if n == 0 {
            return None;
        }
        let mut at: usize = 0;
        proof {
            lemma_nearest(self.matches@, from_line, 0);
        }
        while at < n && self.matches[at] < from_line
            invariant
                at <= n,
                n == self.matches@.len(),
                nearest(self.matches@, from_line) == nearest_from(
                    self.matches@,
                    from_line,
                    at as int,
                ),
            decreases n - at,
        {
            at = at + 1;
        }
        let pos = if at < n {
            at
        } else {
            0
        };
        self.current_match = Some(pos);
        Some(self.matches[pos])
    }

    /// Makes the match after the current one the current one, the first
    /// after the last, and returns its line. `None` where there are no
    /// matches.
    pub fn next_match(&mut self) -> (line: Option<usize>)
        requires
            old(self).wf(),
        ensures
            final(self).wf(),
            *final(self) == (SearchState {
                current_match: final(self).current_match,
                ..*old(self)
            }),
            old(self).matches@.len() == 0 ==> line is None && final(self).current_match
                == old(self).current_match,
            old(self).matches@.len() > 0 ==> final(self).current_match == Some(
                place_after(old(self).current_match, old(self).matches@.len() as int) as usize,
            ) && line == Some(
                old(self).matches@[place_after(
                    old(self).current_match,
                    old(self).matches@.len() as int,
                )],
            ),
    {
        let n = self.matches.len();
        if n == 0 {
            return None;
        }
        let pos = match self.current_match {
            Some(i) => if i + 1 < n {
                i + 1
            } else {
                0
            },
            None => 0,
        };
        self.current_match = Some(pos);
        Some(self.matches[pos])
    }

    /// Makes the match before the current one the current one, the last
    /// before the first, and returns its line. `None` where there are no
    /// matches.
    pub fn prev_match(&mut self) -> (line: Option<usize>)
        requires
            old(self).wf(),
        ensures
            final(self).wf(),
            *final(self) == (SearchState {
                current_match: final(self).current_match,
                ..*old(self)
            }),
            old(self).matches@.len() == 0 ==> line is None && final(self).current_match
                == old(self).current_match,
            old(self).matches@.len() > 0 ==> final(self).current_match == Some(
                place_before(old(self).current_match, old(self).matches@.len() as int) as usize,
            ) && line == Some(
                old(self).matches@[place_before(
                    old(self).current_match,
                    old(self).matches@.len() as int,
                )],
            ),
    {
        let n = self.matches.len();
        if n == 0 {
            return None;
        }
        let pos = match self.current_match {
            Some(i) => if i == 0 {
                n - 1
            } else {
                i - 1
            },
            None => n - 1,
        };
        self.current_match = Some(pos);
        Some(self.matches[pos])
    }

    /// The line of the current match.
    pub fn current_match_line(&self) -> (line: Option<usize>)
        requires
            self.wf(),
        ensures
            line == match self.current_match {
                Some(i) => Some(self.matches@[i as int]),
                None => None,
            },
    {
        match self.current_match {
            Some(i) => Some(self.matches[i]),
            None => None,
        }
    }

    /// How many lines have been found.
    pub fn match_count(&self) -> (count: usize)
        ensures
            count == self.matches@.len(),
    {
        self.matches.len()
    }

    /// Whether `line` is the line of the current match.
    pub fn is_current_match_line(&self, line: usize) -> (current: bool)
        requires
            self.wf(),
        ensures
            current == (self.current_match matches Some(i) && self.matches@[i as int] == line),
    {
        match self.current_match {
            Some(i) => self.matches[i] == line,
            None => false,
        }
    }
}

} // verus!
