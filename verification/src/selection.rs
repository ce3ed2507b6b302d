//! A set of line numbers, read in ascending order: the lines that are
//! selected. The numbers are held in a `BTreeSet`.

use std::collections::BTreeSet;
use vstd::prelude::*;
use vstd::std_specs::btree::*;
use vstd::std_specs::iter::IteratorSpec;

verus! {

/// Whether numbers stand in strictly ascending order.
pub open spec fn is_ascending(lines: Seq<usize>) -> bool {
    forall|i: int, j: int| 0 <= i < j < lines.len() ==> lines[i] < lines[j]
}

/// Whether `lines` are the numbers of `set`, each once, in ascending
/// order.
pub open spec fn lists(lines: Seq<usize>, set: Set<usize>) -> bool {
    &&& is_ascending(lines)
    &&& forall|l: usize| set.contains(l) <==> lines.contains(l)
}

/// A set of line numbers. Beside the set stands, for the contracts
/// alone, the list of its numbers in ascending order.
pub struct LineSet {
    set: BTreeSet<usize>,
    listed: Ghost<Seq<usize>>,
}

impl View for LineSet {
    type V = Seq<usize>;

    /// The lines of the set in ascending order.
    closed spec fn view(&self) -> Seq<usize> {
        self.listed@
    }
}

/// The place of `line` in ascending `lines`: how many of them are smaller.
pub open spec fn rank(lines: Seq<usize>, line: usize) -> int
    decreases lines.len(),
{
    if lines.len() == 0 {
        0
    } else if lines.last() < line {
        lines.len() as int
    } else {
        rank(lines.drop_last(), line)
    }
}

/// What `rank` is in ascending lines: every line before that place is
/// smaller, and none from it on.
pub proof fn lemma_rank(lines: Seq<usize>, line: usize)
    requires
        is_ascending(lines),
    ensures
        0 <= rank(lines, line) <= lines.len(),
        forall|i: int| 0 <= i < rank(lines, line) ==> lines[i] < line,
        forall|i: int| rank(lines, line) <= i < lines.len() ==> lines[i] >= line,
    decreases lines.len(),
{
    if lines.len() > 0 && lines.last() >= line {
        let shorter = lines.drop_last();
        assert(is_ascending(shorter)) by {
            assert forall|i: int, j: int| 0 <= i < j < shorter.len() implies shorter[i]
                < shorter[j] by {
                assert(shorter[i] == lines[i] && shorter[j] == lines[j]);
            }
        }
        lemma_rank(shorter, line);
        assert forall|i: int| 0 <= i < rank(lines, line) implies lines[i] < line by {
            assert(shorter[i] == lines[i]);
        }
        assert forall|i: int| rank(lines, line) <= i < lines.len() implies lines[i] >= line by {
            if i < shorter.len() {
                assert(shorter[i] == lines[i]);
            }
        }
    } else if lines.len() > 0 {
        assert forall|i: int| 0 <= i < lines.len() implies lines[i] < line by {
            if i < lines.len() - 1 {
                assert(lines[i] < lines[lines.len() - 1]);
            }
        }
    }
}

/// A place that parts ascending lines into the smaller ones and the rest
/// is the rank.
pub proof fn lemma_rank_is(lines: Seq<usize>, line: usize, at: int)
    requires
        is_ascending(lines),
        0 <= at <= lines.len(),
        forall|i: int| 0 <= i < at ==> lines[i] < line,
        forall|i: int| at <= i < lines.len() ==> lines[i] >= line,
    ensures
        rank(lines, line) == at,
{
    lemma_rank(lines, line);
    let r = rank(lines, line);
    if r < at {
        assert(lines[r] < line);
    } else if r > at {
        assert(lines[at] >= line);
    }
}

/// A set has one list in ascending order at most.
pub proof fn lemma_lists_unique(a: Seq<usize>, b: Seq<usize>, set: Set<usize>)
    requires
        lists(a, set),
        lists(b, set),
    ensures
        a == b,
    decreases a.len(),
{
    if a.len() == 0 {
        if b.len() > 0 {
            assert(b.contains(b[0]));
            assert(a.contains(b[0]));
        }
        assert(a =~= b);
    } else {
        let m = a.last();
        assert(a.contains(m));
        assert(b.contains(m));
        let k = choose|k: int| 0 <= k < b.len() && b[k] == m;
        assert(b.contains(b.last()));
        assert(a.contains(b.last()));
        let j = choose|j: int| 0 <= j < a.len() && a[j] == b.last();
        if j < a.len() - 1 {
            assert(a[j] < a[a.len() - 1]);
        }
        if k < b.len() - 1 {
            assert(b[k] < b[b.len() - 1]);
        }
        assert(b.last() == m);
        let rest = set.remove(m);
        let shorter_a = a.drop_last();
        let shorter_b = b.drop_last();
        lemma_without_last(a, set);
        lemma_without_last(b, set);
        lemma_lists_unique(shorter_a, shorter_b, rest);
        assert(a =~= shorter_a.push(m));
        assert(b =~= shorter_b.push(m));
    }
}

/// An ascending list without its last number lists the set without that
/// number.
proof fn lemma_without_last(a: Seq<usize>, set: Set<usize>)
    requires
        lists(a, set),
        a.len() > 0,
    ensures
        lists(a.drop_last(), set.remove(a.last())),
{
    let m = a.last();
    let shorter = a.drop_last();
    assert forall|i: int, j: int| 0 <= i < j < shorter.len() implies shorter[i] < shorter[j] by {
        assert(shorter[i] == a[i] && shorter[j] == a[j]);
    }
    assert forall|l: usize| set.remove(m).contains(l) <==> shorter.contains(l) by {
        if set.remove(m).contains(l) {
            assert(a.contains(l));
            let i = choose|i: int| 0 <= i < a.len() && a[i] == l;
            assert(shorter[i] == l);
        }
        if shorter.contains(l) {
            let i = choose|i: int| 0 <= i < shorter.len() && shorter[i] == l;
            assert(a[i] == l);
            assert(a.contains(l));
            assert(a[i] < a[a.len() - 1]);
        }
    }
}

/// A number that is put into an ascending list at its rank gives the list
/// of the set with that number.
pub proof fn lemma_insert_lists(before: Seq<usize>, set: Set<usize>, line: usize)
    requires
        lists(before, set),
        !set.contains(line),
    ensures
        lists(before.insert(rank(before, line), line), set.insert(line)),
{
    lemma_rank(before, line);
    let at = rank(before, line);
    let lines = before.insert(at, line);
    assert forall|i: int, j: int| 0 <= i < j < lines.len() implies lines[i] < lines[j] by {
        if j < at {
            assert(lines[i] == before[i] && lines[j] == before[j]);
        } else if j == at {
            assert(lines[i] == before[i]);
        } else if i < at {
            assert(lines[i] == before[i] && lines[j] == before[j - 1]);
        } else if i == at {
            assert(lines[j] == before[j - 1]);
            assert(before[j - 1] >= line);
            assert(before.contains(before[j - 1]));
        } else {
            assert(lines[i] == before[i - 1] && lines[j] == before[j - 1]);
        }
    }
    assert forall|l: usize| set.insert(line).contains(l) <==> lines.contains(l) by {
        if set.contains(l) {
            assert(before.contains(l));
            let i = choose|i: int| 0 <= i < before.len() && before[i] == l;
            if i < at {
                assert(lines[i] == l);
            } else {
                assert(lines[i + 1] == l);
            }
        }
        if l == line {
            assert(lines[at] == l);
        }
        if lines.contains(l) {
            let i = choose|i: int| 0 <= i < lines.len() && lines[i] == l;
            if i < at {
                assert(before[i] == l);
                assert(before.contains(l));
            } else if i > at {
                assert(before[i - 1] == l);
                assert(before.contains(l));
            }
        }
    }
}

/// A number of an ascending list stands at its rank, and the list without
/// it is the list of the set without that number.
pub proof fn lemma_remove_lists(before: Seq<usize>, set: Set<usize>, line: usize)
    requires
        lists(before, set),
        set.contains(line),
    ensures
        0 <= rank(before, line) < before.len(),
        before[rank(before, line)] == line,
        lists(before.remove(rank(before, line)), set.remove(line)),
{
    lemma_rank(before, line);
    let at = rank(before, line);
    assert(before.contains(line));
    let p = choose|p: int| 0 <= p < before.len() && before[p] == line;
    if p < at {
        assert(before[p] < line);
    }
    if p > at {
        assert(before[at] >= line);
        assert(before[at] < before[p]);
    }
    let lines = before.remove(at);
    assert forall|i: int, j: int| 0 <= i < j < lines.len() implies lines[i] < lines[j] by {
        let a = if i < at {
            i
        } else {
            i + 1
        };
        let b = if j < at {
            j
        } else {
            j + 1
        };
        assert(lines[i] == before[a] && lines[j] == before[b]);
    }
    assert forall|l: usize| set.remove(line).contains(l) <==> lines.contains(l) by {
        if set.contains(l) && l != line {
            assert(before.contains(l));
            let i = choose|i: int| 0 <= i < before.len() && before[i] == l;
            if i < at {
                assert(lines[i] == l);
            } else {
                assert(lines[i - 1] == l);
            }
        }
        if lines.contains(l) {
            let i = choose|i: int| 0 <= i < lines.len() && lines[i] == l;
            if i < at {
                assert(before[i] == l);
                assert(before[i] < before[at]);
            } else {
                assert(before[i + 1] == l);
                assert(before[at] < before[i + 1]);
            }
            assert(before.contains(l));
        }
    }
}

/// A list of a set has as many numbers as the set.
pub proof fn lemma_lists_len(lines: Seq<usize>, set: Set<usize>)
    requires
        lists(lines, set),
    ensures
        set.finite(),
        set.len() == lines.len(),
{
    assert(lines.no_duplicates());
    lines.unique_seq_to_set();
    assert(lines.to_set() =~= set);
}

/// How many numbers of an ascending list are smaller than `line`.
fn place_in(lines: &Vec<usize>, line: usize) -> (at: usize)
    requires
        is_ascending(lines@),
    ensures
        at == rank(lines@, line),
        at <= lines@.len(),
        forall|i: int| 0 <= i < at ==> lines@[i] < line,
        forall|i: int| at <= i < lines@.len() ==> lines@[i] >= line,
{
    let mut lo: usize = 0;
    let mut hi: usize = lines.len();
    while lo < hi
        invariant
            lo <= hi <= lines@.len(),
            is_ascending(lines@),
            forall|i: int| 0 <= i < lo ==> lines@[i] < line,
            forall|i: int| hi <= i < lines@.len() ==> lines@[i] >= line,
        decreases hi - lo,
    {
        let mid = lo + (hi - lo) / 2;
        if lines[mid] < line {
            lo = mid + 1;
        } else {
            hi = mid;
        }
    }
    proof {
        lemma_rank_is(lines@, line, lo as int);
    }
    lo
}

impl LineSet {
    #[verifier::type_invariant]
    spec fn is_listed(self) -> bool {
        lists(self.listed@, self.set@)
    }

    /// Whether `line` is in the set.
    pub open spec fn has(self, line: usize) -> bool {
        self@.contains(line)
    }

    /// The empty set.
    pub fn new() -> (set: Self)
        ensures
            set@ == Seq::<usize>::empty(),
    {
        let set: BTreeSet<usize> = BTreeSet::new();
        LineSet { set, listed: Ghost(Seq::empty()) }
    }

    /// How many lines the set holds.
    pub fn len(&self) -> (count: usize)
        ensures
            count == self@.len(),
    {
        broadcast use group_btree_axioms;

        proof {
            use_type_invariant(self);
            lemma_lists_len(self@, self.set@);
        }
        self.set.len()
    }

    /// Whether the set holds no line.
    pub fn is_empty(&self) -> (empty: bool)
        ensures
            empty == (self@.len() == 0),
    {
        self.len() == 0
    }

    /// The lines of the set in ascending order. The set is walked, and
    /// each of its numbers is put at its place among those before it.
    pub fn to_vec(&self) -> (lines: Vec<usize>)
        ensures
            lines@ == self@,
            is_ascending(lines@),
    {
        broadcast use group_btree_axioms;
        broadcast use axiom_spec_btree_keys_iter;

        proof {
            use_type_invariant(self);
        }
        let mut lines: Vec<usize> = Vec::new();
        let ghost seen = Set::<usize>::empty();
        proof {
            assert(lists(lines@, seen));
        }
        for x in it: self.set.iter()
            invariant
                it.seq() == spec_btree_keys_iter(&self.set).remaining(),
                lists(lines@, seen),
                forall|l: usize|
                    seen.contains(l) <==> exists|k: int|
                        0 <= k < it.index() && *#[trigger] it.seq()[k] == l,
        {
            let ghost earlier = seen;
            let at = place_in(&lines, *x);
            if at >= lines.len() || lines[at] != *x {
                proof {
                    if seen.contains(*x) {
                        let i = choose|i: int| 0 <= i < lines@.len() && lines@[i] == *x;
                        assert(false);
                    }
                    lemma_insert_lists(lines@, seen, *x);
                }
                lines.insert(at, *x);
            } else {
                proof {
                    assert(lines@.contains(*x));
                }
            }
            proof {
                seen = earlier.insert(*x);
                assert(seen =~= earlier.insert(*x));
            }
        }
        proof {
            let keys = spec_btree_keys_iter(&self.set).remaining();
            assert(keys.unref().to_set() == self.set@);
            assert forall|l: usize| self.set@.contains(l) <==> lines@.contains(l) by {
                if self.set@.contains(l) {
                    assert(keys.unref().to_set().contains(l));
                    assert(keys.unref().contains(l));
                    let k = choose|k: int| 0 <= k < keys.unref().len() && keys.unref()[k] == l;
                    assert(*keys[k] == l);
                    assert(seen.contains(l));
                }
                if lines@.contains(l) {
                    assert(seen.contains(l));
                    let k = choose|k: int| 0 <= k < keys.len() && *#[trigger] keys[k] == l;
                    assert(keys.unref()[k] == l);
                    assert(keys.unref().contains(l));
                    assert(keys.unref().to_set().contains(l));
                }
            }
            lemma_lists_unique(lines@, self@, self.set@);
        }
        lines
    }

    /// The smallest line of the set.
    pub fn first(&self) -> (line: Option<usize>)
        ensures
            line == if self@.len() > 0 {
                Some(self@[0])
            } else {
                None
            },
    {
        let lines = self.to_vec();
        if lines.len() > 0 {
            Some(lines[0])
        } else {
            None
        }
    }

    /// Whether `line` is in the set.
    pub fn contains(&self, line: usize) -> (found: bool)
        ensures
            found == self.has(line),
    {
        broadcast use group_btree_axioms;

        proof {
            use_type_invariant(self);
        }
        self.set.contains(&line)
    }

    /// Puts `line` into the set. Returns whether it was not in it.
    pub fn insert(&mut self, line: usize) -> (added: bool)
        ensures
            added == !old(self).has(line),
            final(self)@ == if added {
                old(self)@.insert(rank(old(self)@, line), line)
            } else {
                old(self)@
            },
            forall|l: usize| final(self).has(l) <==> old(self).has(l) || l == line,
    {
        broadcast use group_btree_axioms;

        proof {
            use_type_invariant(&*self);
        }
        let ghost before = self@;
        let ghost held = self.set@;
        let mut taken = LineSet::new();
        std::mem::swap(&mut taken, self);
        let mut set = taken.set;
        let added = set.insert(line);
        let ghost after = if added {
            before.insert(rank(before, line), line)
        } else {
            before
        };
        proof {
            if added {
                lemma_insert_lists(before, held, line);
            } else {
                assert(set@ =~= held);
            }
            assert(lists(after, set@));
        }
        *self = LineSet { set, listed: Ghost(after) };
        added
    }

    /// Takes `line` out of the set. Returns whether it was in it.
    pub fn remove(&mut self, line: usize) -> (removed: bool)
        ensures
            removed == old(self).has(line),
            final(self)@ == if removed {
                old(self)@.remove(rank(old(self)@, line))
            } else {
                old(self)@
            },
            forall|l: usize| final(self).has(l) <==> old(self).has(l) && l != line,
    {
        broadcast use group_btree_axioms;

        proof {
            use_type_invariant(&*self);
        }
        let ghost before = self@;
        let ghost held = self.set@;
        let mut taken = LineSet::new();
        std::mem::swap(&mut taken, self);
        let mut set = taken.set;
        let removed = set.remove(&line);
        let ghost after = if removed {
            before.remove(rank(before, line))
        } else {
            before
        };
        proof {
            if removed {
                lemma_remove_lists(before, held, line);
            } else {
                assert(set@ =~= held);
            }
            assert(lists(after, set@));
        }
        *self = LineSet { set, listed: Ghost(after) };
        removed
    }

    /// Empties the set.
    pub fn clear(&mut self)
        ensures
            final(self)@ == Seq::<usize>::empty(),
    {
        *self = LineSet::new();
    }

    /// Makes the set hold the lines from `start` to `end`, both included,
    /// that are below `total`, and no others.
    pub fn set_range(&mut self, start: usize, end: usize, total: usize)
        ensures
            final(self)@ == range_lines(start, end, total),
            forall|l: usize| final(self).has(l) <==> start <= l <= end && l < total,
    {
        broadcast use group_btree_axioms;

        let mut set: BTreeSet<usize> = BTreeSet::new();
        let ghost lines = Seq::<usize>::empty();
        let mut l: usize = start;
        proof {
            assert(lists(lines, set@));
        }
        while l <= end && l < total
            invariant
                start <= l,
                lines.len() == l - start,
                forall|k: int| 0 <= k < lines.len() ==> lines[k] == start + k,
                lists(lines, set@),
                l <= end + 1 || l == start,
                l <= total || l == start,
            decreases total - l,
        {
            let ghost held = set@;
            let ghost earlier = lines;
            proof {
                if held.contains(l) {
                    assert(earlier.contains(l));
                    let k = choose|k: int| 0 <= k < earlier.len() && earlier[k] == l;
                    assert(false);
                }
                lemma_insert_lists(earlier, held, l);
                lemma_rank_is(earlier, l, earlier.len() as int);
                lines = earlier.insert(earlier.len() as int, l);
            }
            set.insert(l);
            l = l + 1;
        }
        proof {
            assert(lines =~= range_lines(start, end, total));
        }
        *self = LineSet { set, listed: Ghost(lines) };
        proof {
            assert forall|x: usize| self.has(x) <==> start <= x <= end && x < total by {
                if start <= x <= end && x < total {
                    assert(self@[x - start] == x);
                }
            }
        }
    }
}

/// The lines from `start` to `end`, both included, that are below `total`,
/// in ascending order.
pub open spec fn range_lines(start: usize, end: usize, total: usize) -> Seq<usize> {
    let stop = if end < total {
        end + 1
    } else {
        total as int
    };
    if stop > start {
        Seq::new((stop - start) as nat, |k: int| (start + k) as usize)
    } else {
        Seq::empty()
    }
}

} // verus!
