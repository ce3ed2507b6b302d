//! Marking matches in a line: the pieces that a stretch of a line falls
//! into, those within a match and those between matches.

use crate::chars::{bytes_before, char_to_byte};
use crate::pattern::{find_all, in_sequence, regex_find_all};
use regex::Regex;
use vstd::prelude::*;
use vstd::string::*;

verus! {

/// A piece of a line: its bytes from `start` up to `end`, within a match
/// or not.
#[derive(Debug, Clone, Copy, PartialEq, Eq, Structural)]
pub struct Piece {
    pub start: usize,
    pub end: usize,
    pub marked: bool,
}

/// Whether byte `p` lies within one of the ranges.
pub open spec fn is_covered(ranges: Seq<(usize, usize)>, p: int) -> bool {
    exists|i: int| 0 <= i < ranges.len() && (#[trigger] ranges[i]).0 <= p < ranges[i].1
}

/// Whether pieces make up the stretch from `from` to `to` of a line, one
/// after another without a gap, none of them empty but a single piece for
/// an empty stretch.
pub open spec fn make_up(pieces: Seq<Piece>, from: int, to: int) -> bool {
    &&& pieces.len() > 0
    &&& pieces[0].start == from
    &&& pieces.last().end == to
    &&& forall|k: int| 0 <= k < pieces.len() ==> (#[trigger] pieces[k]).start <= pieces[k].end
    &&& forall|k: int| 0 <= k < pieces.len() - 1 ==> (#[trigger] pieces[k]).end == pieces[k + 1].start
    &&& pieces.len() > 1 ==> forall|k: int|
        0 <= k < pieces.len() ==> (#[trigger] pieces[k]).start < pieces[k].end
}

/// Whether the marked pieces are the parts of the stretch that lie within
/// the ranges, and the others the parts that do not.
pub open spec fn mark_covered(pieces: Seq<Piece>, ranges: Seq<(usize, usize)>) -> bool {
    forall|k: int, p: int|
        0 <= k < pieces.len() && (#[trigger] pieces[k]).start <= p < pieces[k].end ==> (
        pieces[k].marked <==> #[trigger] is_covered(ranges, p))
}

/// Parts the stretch from `from` to `to` of a line into the pieces that
/// lie within the given ranges and the pieces between them. The ranges
/// follow one another without overlapping.
pub fn mark_pieces(from: usize, to: usize, ranges: &Vec<(usize, usize)>) -> (pieces: Vec<Piece>)
    requires
        from <= to,
        in_sequence(ranges@, usize::MAX as int),
    ensures
        make_up(pieces@, from as int, to as int),
        mark_covered(pieces@, ranges@),
{
    let mut pieces: Vec<Piece> = Vec::new();
    let mut pos: usize = from;
    let mut i: usize = 0;
    while i < ranges.len()
        invariant
            i <= ranges@.len(),
            from <= pos <= to,
            in_sequence(ranges@, usize::MAX as int),
            forall|k: int|
                0 <= k < i ==> (#[trigger] ranges@[k]).1 <= pos || ranges@[k].0 >= to || pos
                    >= to || ranges@[k].0 >= ranges@[k].1,
            pieces@.len() == 0 ==> pos == from,
            pieces@.len() > 0 ==> pieces@[0].start == from && pieces@.last().end == pos,
            forall|k: int| 0 <= k < pieces@.len() ==> (#[trigger] pieces@[k]).start < pieces@[k].end,
            forall|k: int|
                0 <= k < pieces@.len() - 1 ==> (#[trigger] pieces@[k]).end == pieces@[k + 1].start,
            forall|k: int| 0 <= k < pieces@.len() ==> (#[trigger] pieces@[k]).end <= pos,
            mark_covered(pieces@, ranges@),
        decreases ranges@.len() - i,
    {
        let (start, end) = ranges[i];
        let cut_start = if start > pos {
            start
        } else {
            pos
        };
        let cut_end = if end < to {
            end
        } else {
            to
        };
        if cut_start < cut_end {
            let ghost before = pieces@;
            if cut_start > pos {
                pieces.push(Piece { start: pos, end: cut_start, marked: false });
                proof {
                    assert forall|p: int| pos <= p < cut_start implies !is_covered(
                        ranges@,
                        p,
                    ) by {
                        if is_covered(ranges@, p) {
                            let j = choose|j: int|
                                0 <= j < ranges@.len() && (#[trigger] ranges@[j]).0 <= p
                                    < ranges@[j].1;
                            if j < i {
                                assert(ranges@[j].1 <= pos || ranges@[j].0 >= to || pos >= to || ranges@[j].0
                                    >= ranges@[j].1);
                            } else if j > i {
                                assert(ranges@[i as int].1 <= ranges@[j].0);
                            }
                        }
                    }
                }
            }
            pieces.push(Piece { start: cut_start, end: cut_end, marked: true });
            proof {
                assert forall|p: int| cut_start <= p < cut_end implies is_covered(ranges@, p) by {
                    assert(ranges@[i as int].0 <= p < ranges@[i as int].1);
                }
                assert forall|k: int, p: int|
                    0 <= k < pieces@.len() && (#[trigger] pieces@[k]).start <= p
                        < pieces@[k].end implies (pieces@[k].marked <==> #[trigger] is_covered(
                    ranges@,
                    p,
                )) by {
                    if k < before.len() {
                        assert(pieces@[k] == before[k]);
                    }
                }
            }
            pos = cut_end;
        }
        i = i + 1;
    }
    if pos < to || pieces.len() == 0 {
        let ghost before = pieces@;
        pieces.push(Piece { start: pos, end: to, marked: false });
        proof {
            assert forall|p: int| pos <= p < to implies !is_covered(ranges@, p) by {
                if is_covered(ranges@, p) {
                    let j = choose|j: int|
                        0 <= j < ranges@.len() && (#[trigger] ranges@[j]).0 <= p < ranges@[j].1;
                    assert(ranges@[j].1 <= pos || ranges@[j].0 >= to || pos >= to || ranges@[j].0
                                    >= ranges@[j].1);
                }
            }
            assert forall|k: int, p: int|
                0 <= k < pieces@.len() && (#[trigger] pieces@[k]).start <= p
                    < pieces@[k].end implies (pieces@[k].marked <==> #[trigger] is_covered(
                ranges@,
                p,
            )) by {
                if k < before.len() {
                    assert(pieces@[k] == before[k]);
                }
            }
        }
    }
    pieces
}

/// Whether `ranges` are the matches of an expression in a text.
pub open spec fn are_matches(ranges: Seq<(usize, usize)>, re: &Regex, text: Seq<char>) -> bool {
    &&& ranges.len() == regex_find_all(re, text).len()
    &&& forall|i: int|
        0 <= i < ranges.len() ==> (#[trigger] ranges[i]).0 == regex_find_all(re, text)[i].0
            && ranges[i].1 == regex_find_all(re, text)[i].1
}

/// Finds the matches of an expression in a line, one after another.
pub fn find_marks(re: &Regex, line: &str) -> (ranges: Vec<(usize, usize)>)
    ensures
        are_matches(ranges@, re, line@),
        in_sequence(ranges@, line.spec_bytes().len() as int),
{
    find_all(re, line)
}

/// Parts a line into the pieces that an expression matches and the pieces
/// between them.
pub fn highlight_pieces(re: &Regex, line: &str) -> (pieces: Vec<Piece>)
    ensures
        make_up(pieces@, 0, line.spec_bytes().len() as int),
        exists|ranges: Seq<(usize, usize)>|
            are_matches(ranges, re, line@) && mark_covered(pieces@, ranges),
{
    let ranges = find_marks(re, line);
    let len = line.as_bytes().len();
    let pieces = mark_pieces(0, len, &ranges);
    proof {
        assert(are_matches(ranges@, re, line@) && mark_covered(pieces@, ranges@));
    }
    pieces
}

/// Parts a line into what stands before, within and behind a selection
/// that runs from character `start_char` up to character `end_char`.
pub fn selected_pieces(line: &str, start_char: usize, end_char: usize) -> (pieces: Vec<Piece>)
    ensures
        make_up(pieces@, 0, line.spec_bytes().len() as int),
        mark_covered(
            pieces@,
            seq![
                (
                    bytes_before(line@, start_char as int) as usize,
                    bytes_before(line@, end_char as int) as usize,
                ),
            ],
        ),
{
    let from = char_to_byte(line, start_char);
    let to = char_to_byte(line, end_char);
    let len = line.as_bytes().len();
    let mut ranges: Vec<(usize, usize)> = Vec::new();
    if from < to {
        ranges.push((from, to));
    }
    let pieces = mark_pieces(0, len, &ranges);
    proof {
        let chosen = seq![(from, to)];
        assert forall|k: int, p: int|
            0 <= k < pieces@.len() && (#[trigger] pieces@[k]).start <= p < pieces@[k].end implies (
        pieces@[k].marked <==> #[trigger] is_covered(chosen, p)) by {
            if from < to {
                assert(ranges@ =~= chosen);
            } else {
                assert(!is_covered(ranges@, p));
                assert(!is_covered(chosen, p));
            }
        }
    }
    pieces
}

} // verus!
