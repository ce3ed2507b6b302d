//! Walking a range of lines and keeping those that a search expression or
//! a set of filter conditions lets through.

use crate::cancel::stop_requested;
use crate::pattern::{is_match, regex_matches};
use crate::text::{get_line_from_data, line_text, usable_len};
use regex::Regex;
use std::sync::atomic::AtomicBool;
use vstd::prelude::*;

verus! {

/// How many lines are walked between two looks at the stop flag.
pub const STOP_CHECK_LINES: usize = 1024;

/// The lines from `from` up to, not including, `to` that `pass` lets
/// through, in ascending order.
pub open spec fn passing(pass: spec_fn(int) -> bool, from: int, to: int) -> Seq<usize>
    decreases to - from,
{
    if to <= from {
        Seq::empty()
    } else if pass(to - 1) {
        passing(pass, from, to - 1).push((to - 1) as usize)
    } else {
        passing(pass, from, to - 1)
    }
}

/// A range of lines is walked by walking its first part and then the rest.
pub proof fn lemma_passing_split(pass: spec_fn(int) -> bool, from: int, mid: int, to: int)
    requires
        from <= mid <= to,
    ensures
        passing(pass, from, to) == passing(pass, from, mid) + passing(pass, mid, to),
    decreases to - mid,
{
    if mid == to {
        assert(passing(pass, from, mid) + passing(pass, mid, to) =~= passing(pass, from, to));
    } else {
        lemma_passing_split(pass, from, mid, to - 1);
        if pass(to - 1) {
            assert(passing(pass, from, to) =~= passing(pass, from, mid) + passing(pass, mid, to));
        }
    }
}

/// What `passing` holds: lines of the range that pass, each once, in
/// ascending order.
pub proof fn lemma_passing_holds(pass: spec_fn(int) -> bool, from: int, to: int)
    requires
        0 <= from,
        to <= usize::MAX,
    ensures
        forall|k: int|
            0 <= k < passing(pass, from, to).len() ==> from <= #[trigger] passing(pass, from, to)[k]
                < to && pass(passing(pass, from, to)[k] as int),
        forall|j: int, k: int|
            0 <= j < k < passing(pass, from, to).len() ==> passing(pass, from, to)[j] < passing(
                pass,
                from,
                to,
            )[k],
        forall|i: int|
            from <= i < to && #[trigger] pass(i) ==> exists|k: int|
                0 <= k < passing(pass, from, to).len() && #[trigger] passing(pass, from, to)[k] == i,
    decreases to - from,
{
    if to > from {
        lemma_passing_holds(pass, from, to - 1);
        let before = passing(pass, from, to - 1);
        let all = passing(pass, from, to);
        assert forall|i: int| from <= i < to && #[trigger] pass(i) implies exists|k: int|
            0 <= k < all.len() && #[trigger] all[k] == i by {
            if i < to - 1 {
                let k = choose|k: int| 0 <= k < before.len() && #[trigger] before[k] == i;
                assert(all[k] == i);
            } else {
                assert(all[all.len() - 1] == i);
            }
        }
    }
}

/// Whether line `i` has a text that the expression matches.
pub open spec fn line_matches(
    re: &Regex,
    data: Seq<u8>,
    offsets: Seq<u64>,
    data_len: int,
    i: int,
) -> bool {
    match line_text(data, offsets, data_len, i) {
        Some(text) => regex_matches(re, text),
        None => false,
    }
}

/// Whether a text meets every condition: a condition that is not negated
/// is met where its expression matches, a negated one where it does not.
pub open spec fn meets_all(conditions: Seq<(Regex, bool)>, text: Seq<char>) -> bool {
    forall|k: int|
        0 <= k < conditions.len() ==> regex_matches(&(#[trigger] conditions[k]).0, text)
            != conditions[k].1
}

/// Whether line `i` has a text that meets every condition.
pub open spec fn line_passes(
    conditions: Seq<(Regex, bool)>,
    data: Seq<u8>,
    offsets: Seq<u64>,
    data_len: int,
    i: int,
) -> bool {
    match line_text(data, offsets, data_len, i) {
        Some(text) => meets_all(conditions, text),
        None => false,
    }
}

/// The lines of a range that a search expression matches.
pub open spec fn matching_lines_in(
    re: &Regex,
    data: Seq<u8>,
    offsets: Seq<u64>,
    data_len: int,
    from: int,
    to: int,
) -> Seq<usize> {
    passing(|i: int| line_matches(re, data, offsets, data_len, i), from, to)
}

/// The lines of a range that meet every filter condition.
pub open spec fn passing_lines_in(
    conditions: Seq<(Regex, bool)>,
    data: Seq<u8>,
    offsets: Seq<u64>,
    data_len: int,
    from: int,
    to: int,
) -> Seq<usize> {
    passing(|i: int| line_passes(conditions, data, offsets, data_len, i), from, to)
}

/// The line at which a batch of `batch_size` lines from `start` ends, of
/// `total` lines.
pub open spec fn batch_stop(total: int, start: usize, batch_size: usize) -> int {
    if start + batch_size < total {
        start + batch_size
    } else {
        total
    }
}

/// Whether a text meets every condition.
pub fn text_meets_all(conditions: &[(Regex, bool)], text: &str) -> (ok: bool)
    ensures
        ok == meets_all(conditions@, text@),
{
    let mut k: usize = 0;
    while k < conditions.len()
        invariant
            k <= conditions@.len(),
            forall|j: int|
                0 <= j < k ==> regex_matches(&(#[trigger] conditions@[j]).0, text@)
                    != conditions@[j].1,
        decreases conditions@.len() - k,
    {
        let found = is_match(&conditions[k].0, text);
        if found == conditions[k].1 {
            return false;
        }
        k = k + 1;
    }
    true
}

/// What walking a batch of lines gave: the lines that passed, the line
/// that the walk reached, and whether it was stopped before the batch's
/// end.
pub struct BatchOutcome {
    pub matches: Vec<usize>,
    pub cursor: usize,
    pub cancelled: bool,
}

impl BatchOutcome {
    /// Whether the walk ended where a walk of the batch can end: at the
    /// batch's end, or, stopped by the flag, at a line before it whose
    /// number is a multiple of `STOP_CHECK_LINES`.
    pub open spec fn ends_in(self, total: int, start: usize, batch_size: usize, flagged: bool) -> bool {
        if self.cancelled {
            &&& flagged
            &&& start <= self.cursor < batch_stop(total, start, batch_size)
            &&& self.cursor % STOP_CHECK_LINES == 0
        } else {
            self.cursor == batch_stop(total, start, batch_size)
        }
    }
}

/// Walks the batch of `batch_size` lines from `start_line`, of `total`
/// lines, and keeps the lines that `regex` matches. Before every line whose number is a
/// multiple of `STOP_CHECK_LINES` the stop flag is looked at, where there
/// is one; the walk ends there when it is set.
pub fn search_lines(
    data: &[u8],
    regex: &Regex,
    line_offsets: &[u64],
    data_len: usize,
    start_line: usize,
    batch_size: usize,
    total: usize,
    cancel: Option<&AtomicBool>,
) -> (out: BatchOutcome)
    ensures
        out.ends_in(total as int, start_line, batch_size, cancel is Some),
        out.matches@ == matching_lines_in(
            regex,
            data@,
            line_offsets@,
            usable_len(data@, data_len),
            start_line as int,
            out.cursor as int,
        ),
{
    let end = if start_line < total && batch_size < total - start_line {
        start_line + batch_size
    } else {
        total
    };
    let ghost pass = |i: int| line_matches(regex, data@, line_offsets@, usable_len(data@, data_len), i);
    let mut matches: Vec<usize> = Vec::new();
    let mut i: usize = start_line;
    while i < end
        invariant
            end == batch_stop(total as int, start_line, batch_size),
            start_line <= i <= end || (end < start_line && i == start_line),
            pass == |i: int|
                line_matches(regex, data@, line_offsets@, usable_len(data@, data_len), i),
            matches@ == passing(pass, start_line as int, i as int),
        decreases end - i,
    {
        if i % STOP_CHECK_LINES == 0 {
            let stop = match cancel {
                Some(flag) => stop_requested(flag),
                None => false,
            };
            if stop {
                return BatchOutcome { matches, cursor: i, cancelled: true };
            }
        }
        match get_line_from_data(data, line_offsets, data_len, i) {
            Some(line) => {
                if is_match(regex, line.as_str()) {
                    matches.push(i);
                }
            },
            None => {},
        }
        i = i + 1;
    }
    BatchOutcome { matches, cursor: end, cancelled: false }
}

/// Walks the batch of `batch_size` lines from `start_line`, of `total`
/// lines, and keeps the lines that meet every condition. Before every line whose number is a
/// multiple of `STOP_CHECK_LINES` the stop flag is looked at, where there
/// is one; the walk ends there when it is set.
pub fn filter_lines(
    data: &[u8],
    conditions: &[(Regex, bool)],
    line_offsets: &[u64],
    data_len: usize,
    start_line: usize,
    batch_size: usize,
    total: usize,
    cancel: Option<&AtomicBool>,
) -> (out: BatchOutcome)
    ensures
        out.ends_in(total as int, start_line, batch_size, cancel is Some),
        out.matches@ == passing_lines_in(
            conditions@,
            data@,
            line_offsets@,
            usable_len(data@, data_len),
            start_line as int,
            out.cursor as int,
        ),
{
    let end = if start_line < total && batch_size < total - start_line {
        start_line + batch_size
    } else {
        total
    };
    let ghost pass = |i: int|
        line_passes(conditions@, data@, line_offsets@, usable_len(data@, data_len), i);
    let mut matches: Vec<usize> = Vec::new();
    let mut i: usize = start_line;
    while i < end
        invariant
            end == batch_stop(total as int, start_line, batch_size),
            start_line <= i <= end || (end < start_line && i == start_line),
            pass == |i: int|
                line_passes(conditions@, data@, line_offsets@, usable_len(data@, data_len), i),
            matches@ == passing(pass, start_line as int, i as int),
        decreases end - i,
    {
        if i % STOP_CHECK_LINES == 0 {
            let stop = match cancel {
                Some(flag) => stop_requested(flag),
                None => false,
            };
            if stop {
                return BatchOutcome { matches, cursor: i, cancelled: true };
            }
        }
        match get_line_from_data(data, line_offsets, data_len, i) {
            Some(line) => {
                if text_meets_all(conditions, line.as_str()) {
                    matches.push(i);
                }
            },
            None => {},
        }
        i = i + 1;
    }
    BatchOutcome { matches, cursor: end, cancelled: false }
}

} // verus!
