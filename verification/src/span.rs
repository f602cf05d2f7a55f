//! Where a word lies: a start coordinate, a length and a direction, and the
//! geometry that follows from them.

use crate::direction::WordDirection;
use vstd::prelude::*;

verus! {

/// Describes where a word's letters are placed in the word search grid.
/// Includes a beginning coordinate, a length, and a direction.
#[derive(Clone, Copy, Debug, PartialEq, Eq)]
pub struct WordSpan {
    /// The starting coordinate in the grid of the word that this span refers to.
    pub begin: (usize, usize),
    /// The length of the word that this span refers to.
    pub len: usize,
    /// The direction that the word goes in.
    pub direction: WordDirection,
}

impl WordSpan {
    /// The coordinate reached after `i` steps from the beginning. Its
    /// components are mathematical integers and may be negative.
    pub open spec fn cell(&self, i: int) -> (int, int) {
        (
            self.begin.0 + self.direction.scaled(i).0,
            self.begin.1 + self.direction.scaled(i).1,
        )
    }

    /// The coordinates of the span's letters, in reading order.
    pub open spec fn cells(&self) -> Seq<(int, int)> {
        Seq::new(self.len as nat, |i: int| self.cell(i))
    }

    /// The coordinate one step past the last letter.
    pub open spec fn end(&self) -> (int, int) {
        self.cell(self.len as int)
    }

    /// Whether every letter's coordinate can be written with unsigned
    /// machine integers.
    pub open spec fn representable(&self) -> bool {
        self.len > 0 ==> {
            &&& 0 <= self.cell(self.len - 1).0 <= usize::MAX
            &&& 0 <= self.cell(self.len - 1).1 <= usize::MAX
        }
    }

    /// The bounds test: the beginning lies in the grid, and the coordinate
    /// one past the last letter is strictly positive and strictly below the
    /// dimensions, in both components.
    pub open spec fn within(&self, num_rows: int, num_columns: int) -> bool {
        &&& self.begin.0 < num_rows
        &&& self.begin.1 < num_columns
        &&& 0 < self.end().0 < num_rows
        &&& 0 < self.end().1 < num_columns
    }

    /// Whether the two spans have a coordinate in common.
    pub open spec fn meets(&self, other: &WordSpan) -> bool {
        exists|i: int, j: int|
            0 <= i < self.len && 0 <= j < other.len && self.cell(i) == other.cell(j)
    }

    /// Whether every letter's coordinate lies in a grid of the given
    /// dimensions.
    pub open spec fn inside(&self, num_rows: int, num_columns: int) -> bool {
        forall|i: int|
            0 <= i < self.len ==> 0 <= (#[trigger] self.cell(i)).0 < num_rows && 0 <= self.cell(
                i,
            ).1 < num_columns
    }

    /// Whether the span may join `placed` on a grid of the given dimensions:
    /// it passes the bounds test and shares no coordinate with any of them.
    pub open spec fn acceptable(
        &self,
        num_rows: int,
        num_columns: int,
        placed: Seq<WordSpan>,
    ) -> bool {
        &&& self.within(num_rows, num_columns)
        &&& forall|i: int| 0 <= i < placed.len() ==> !self.meets(&#[trigger] placed[i])
    }

    /// Creates a new span with the given beginning coordinate, length and
    /// direction of the word.
    pub fn new(begin: (usize, usize), len: usize, direction: WordDirection) -> (span: WordSpan)
        ensures
            span.begin == begin,
            span.len == len,
            span.direction == direction,
    {
        WordSpan { begin, len, direction }
    }

    /// Returns all indices of the grid that the word spans across, in
    /// reading order.
    pub fn indices(&self) -> (indices: Vec<(usize, usize)>)
        requires
            self.representable(),
        ensures
            indices@.len() == self.len,
            forall|i: int|
                0 <= i < self.len ==> (indices@[i].0 as int, indices@[i].1 as int) == self.cell(i),
    {
        let mut indices: Vec<(usize, usize)> = Vec::with_capacity(self.len);
        let mut i: usize = 0;
        while i < self.len
            invariant
                self.representable(),
                i <= self.len,
                indices@.len() == i,
                forall|k: int|
                    0 <= k < i ==> (indices@[k].0 as int, indices@[k].1 as int) == self.cell(k),
            decreases self.len - i,
        {
            let mut index: (usize, usize) = self.begin;
            match self.direction {
                WordDirection::Up => {
                    index.1 = index.1 + i;
                },
                WordDirection::Down => {
                    index.1 = index.1 - i;
                },
                WordDirection::Left => {
                    index.0 = index.0 - i;
                },
                WordDirection::Right => {
                    index.0 = index.0 + i;
                },
                WordDirection::DiagonalUpLeft => {
                    index.0 = index.0 - i;
                    index.1 = index.1 + i;
                },
                WordDirection::DiagonalUpRight => {
                    index.0 = index.0 + i;
                    index.1 = index.1 + i;
                },
                WordDirection::DiagonalDownLeft => {
                    index.0 = index.0 - i;
                    index.1 = index.1 - i;
                },
                WordDirection::DiagonalDownRight => {
                    index.0 = index.0 + i;
                    index.1 = index.1 - i;
                },
            }
            indices.push(index);
            i = i + 1;
        }
        indices
    }

    /// Returns whether two word spans overlap, meaning that they can't both
    /// be placed on the grid.
    pub fn overlaps(&self, other: &WordSpan) -> (b: bool)
        requires
            self.representable(),
            other.representable(),
        ensures
            b == self.meets(other),
    {
        let mine = self.indices();
        let theirs = other.indices();
        let mut i: usize = 0;
        while i < mine.len()
            invariant
                mine@.len() == self.len,
                theirs@.len() == other.len,
                i <= mine@.len(),
                forall|k: int|
                    0 <= k < self.len ==> (mine@[k].0 as int, mine@[k].1 as int) == self.cell(k),
                forall|k: int|
                    0 <= k < other.len ==> (theirs@[k].0 as int, theirs@[k].1 as int)
                        == other.cell(k),
                forall|a: int, c: int|
                    0 <= a < i && 0 <= c < other.len ==> self.cell(a) != other.cell(c),
            decreases mine@.len() - i,
        {
            let mut j: usize = 0;
            while j < theirs.len()
                invariant
                    mine@.len() == self.len,
                    theirs@.len() == other.len,
                    i < mine@.len(),
                    j <= theirs@.len(),
                    forall|k: int|
                        0 <= k < self.len ==> (mine@[k].0 as int, mine@[k].1 as int) == self.cell(
                            k,
                        ),
                    forall|k: int|
                        0 <= k < other.len ==> (theirs@[k].0 as int, theirs@[k].1 as int)
                            == other.cell(k),
                    forall|c: int| 0 <= c < j ==> self.cell(i as int) != other.cell(c),
                decreases theirs@.len() - j,
            {
                if mine[i].0 == theirs[j].0 && mine[i].1 == theirs[j].1 {
                    assert(self.cell(i as int) == other.cell(j as int));
                    return true;
                }
                j = j + 1;
            }
            i = i + 1;
        }
        false
    }

    /// Decides whether a candidate span is accepted next to the spans
    /// `placed` so far: it must be in bounds and overlap none of them.
    pub fn fits(&self, num_rows: usize, num_columns: usize, placed: &Vec<WordSpan>) -> (b: bool)
        requires
            forall|i: int| 0 <= i < placed@.len() ==> (#[trigger] placed@[i]).representable(),
        ensures
            b == self.acceptable(num_rows as int, num_columns as int, placed@),
    {
        if !self.in_bounds(num_rows, num_columns) {
            return false;
        }
        proof {
            lemma_within_is_inside(*self, num_rows as int, num_columns as int);
        }
        let mut i: usize = 0;
        while i < placed.len()
            invariant
                i <= placed@.len(),
                self.representable(),
                forall|k: int| 0 <= k < placed@.len() ==> (#[trigger] placed@[k]).representable(),
                forall|k: int| 0 <= k < i ==> !self.meets(&#[trigger] placed@[k]),
            decreases placed@.len() - i,
        {
            if self.overlaps(&placed[i]) {
                return false;
            }
            i = i + 1;
        }
        true
    }

    /// The coordinate one step past the last letter, in signed arithmetic:
    /// the beginning advanced by the direction's step times the length.
    pub fn get_end_coordinate(&self) -> (end: (i128, i128))
        ensures
            (end.0 as int, end.1 as int) == self.end(),
    {
        let mut end: (i128, i128) = (self.begin.0 as i128, self.begin.1 as i128);
        let len: i128 = self.len as i128;
        match self.direction {
            WordDirection::Up => {
                end.1 = end.1 + len;
            },
            WordDirection::Down => {
                end.1 = end.1 - len;
            },
            WordDirection::Left => {
                end.0 = end.0 - len;
            },
            WordDirection::Right => {
                end.0 = end.0 + len;
            },
            WordDirection::DiagonalUpLeft => {
                end.0 = end.0 - len;
                end.1 = end.1 + len;
            },
            WordDirection::DiagonalUpRight => {
                end.0 = end.0 + len;
                end.1 = end.1 + len;
            },
            WordDirection::DiagonalDownLeft => {
                end.0 = end.0 - len;
                end.1 = end.1 - len;
            },
            WordDirection::DiagonalDownRight => {
                end.0 = end.0 + len;
                end.1 = end.1 - len;
            },
        }
        end
    }

    /// Returns whether the word span is in bounds of the given grid
    /// dimensions.
    pub fn in_bounds(&self, num_rows: usize, num_columns: usize) -> (b: bool)
        ensures
            b == self.within(num_rows as int, num_columns as int),
    {
        let end = self.get_end_coordinate();
        self.begin.0 < num_rows && self.begin.1 < num_columns && end.0 > 0 && end.1 > 0 && end.0
            < num_rows as i128 && end.1 < num_columns as i128
    }
}

/// The letters of a span lie on pairwise different coordinates, the first
/// of them on the span's beginning.
pub proof fn lemma_cells_distinct(span: WordSpan, i: int, j: int)
    requires
        i != j,
    ensures
        span.cell(i) != span.cell(j),
        span.cell(0) == (span.begin.0 as int, span.begin.1 as int),
{
}

/// A span that passes the bounds test has every letter inside the grid, and
/// so on coordinates that unsigned machine integers can hold.
pub proof fn lemma_within_is_inside(span: WordSpan, num_rows: int, num_columns: int)
    requires
        span.within(num_rows, num_columns),
        num_rows <= usize::MAX,
        num_columns <= usize::MAX,
    ensures
        span.inside(num_rows, num_columns),
        span.representable(),
{
}

/// A span at least as long as the grid is high and wide fails the bounds
/// test, wherever it begins and whichever way it runs.
pub proof fn lemma_too_long_is_out_of_bounds(span: WordSpan, num_rows: int, num_columns: int)
    requires
        span.len >= num_rows,
        span.len >= num_columns,
    ensures
        !span.within(num_rows, num_columns),
{
}

/// Two spans meet in whichever order they are asked.
pub proof fn lemma_meets_symmetric(a: WordSpan, b: WordSpan)
    ensures
        a.meets(&b) == b.meets(&a),
{
    if a.meets(&b) {
        let (i, j) = choose|i: int, j: int|
            0 <= i < a.len && 0 <= j < b.len && a.cell(i) == b.cell(j);
        assert(0 <= j < b.len && 0 <= i < a.len && b.cell(j) == a.cell(i));
    }
    if b.meets(&a) {
        let (j, i) = choose|j: int, i: int|
            0 <= j < b.len && 0 <= i < a.len && b.cell(j) == a.cell(i);
        assert(0 <= i < a.len && 0 <= j < b.len && a.cell(i) == b.cell(j));
    }
}

/// Spans that do not meet have no coordinate in common, and the other way
/// round: their coordinate sets are disjoint exactly then.
pub proof fn lemma_meets_is_shared_cell(a: WordSpan, b: WordSpan)
    ensures
        a.meets(&b) <==> exists|p: (int, int)| a.cells().contains(p) && b.cells().contains(p),
{
    if a.meets(&b) {
        let (i, j) = choose|i: int, j: int|
            0 <= i < a.len && 0 <= j < b.len && a.cell(i) == b.cell(j);
        assert(a.cells()[i] == a.cell(i));
        assert(b.cells()[j] == a.cell(i));
        assert(a.cells().contains(a.cell(i)) && b.cells().contains(a.cell(i)));
    }
    if exists|p: (int, int)| a.cells().contains(p) && b.cells().contains(p) {
        let p = choose|p: (int, int)| a.cells().contains(p) && b.cells().contains(p);
        let i = choose|i: int| 0 <= i < a.cells().len() && a.cells()[i] == p;
        let j = choose|j: int| 0 <= j < b.cells().len() && b.cells()[j] == p;
        assert(0 <= i < a.len && 0 <= j < b.len && a.cell(i) == b.cell(j));
    }
}

} // verus!
