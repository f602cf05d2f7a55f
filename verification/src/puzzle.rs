//! What a finished puzzle is, as a mathematical value, and what holds of
//! every well-formed one.

use crate::config::WordSearchConfig;
use crate::grid::{grid_cells, grid_columns};
use crate::span::WordSpan;
use array2d::Array2D;
use vstd::prelude::*;

verus! {

/// A puzzle as a mathematical value: the rows of the grid, the number of
/// columns, and the words with the spans they lie on.
pub struct Puzzle {
    /// The rows of the grid, top to bottom.
    pub cells: Seq<Seq<char>>,
    /// The number of columns of the grid.
    pub num_columns: nat,
    /// Each word with its span, in the order the words were given in.
    pub placements: Seq<(Seq<char>, WordSpan)>,
}

/// Each word by its characters, beside its span.
pub open spec fn placements_of(word_spans: Seq<(String, WordSpan)>) -> Seq<
    (Seq<char>, WordSpan),
> {
    Seq::new(word_spans.len(), |i: int| (word_spans[i].0@, word_spans[i].1))
}

/// The puzzle that a grid and a list of words with their spans make up.
pub open spec fn puzzle_of(grid: Array2D<char>, word_spans: Seq<(String, WordSpan)>) -> Puzzle {
    Puzzle {
        cells: grid_cells(grid),
        num_columns: grid_columns(grid),
        placements: placements_of(word_spans),
    }
}

/// What holds of spans chosen for `words` on a grid of the given
/// dimensions: there is one span per word, as long as the word; each passes
/// the bounds test; no two share a coordinate; and all face forward where
/// backward directions are not allowed.
pub open spec fn arranged(
    spans: Seq<WordSpan>,
    words: Seq<String>,
    num_rows: int,
    num_columns: int,
    allow_backward_words: bool,
) -> bool {
    &&& spans.len() == words.len()
    &&& forall|i: int| 0 <= i < spans.len() ==> (#[trigger] spans[i]).len == words[i]@.len()
    &&& forall|i: int| 0 <= i < spans.len() ==> (#[trigger] spans[i]).within(num_rows, num_columns)
    &&& forall|i: int, j: int|
        #![trigger spans[i], spans[j]]
        0 <= i < spans.len() && 0 <= j < spans.len() && i != j ==> !spans[i].meets(&spans[j])
    &&& !allow_backward_words ==> forall|i: int|
        0 <= i < spans.len() ==> (#[trigger] spans[i]).direction.is_forward()
}

/// A row as it is printed: each character followed by a space.
pub open spec fn spaced(row: Seq<char>) -> Seq<char>
    decreases row.len(),
{
    if row.len() == 0 {
        Seq::empty()
    } else {
        spaced(row.drop_last()).push(row.last()).push(' ')
    }
}

impl Puzzle {
    /// The number of rows of the grid.
    pub open spec fn num_rows(self) -> nat {
        self.cells.len()
    }

    /// Whether every row has as many characters as the grid has columns.
    pub open spec fn rectangular(self) -> bool {
        forall|r: int|
            0 <= r < self.cells.len() ==> (#[trigger] self.cells[r]).len() == self.num_columns
    }

    /// Whether the coordinate lies in the grid.
    pub open spec fn has_cell(self, row: int, column: int) -> bool {
        0 <= row < self.num_rows() && 0 <= column < self.num_columns
    }

    /// The word at position `i` of the list.
    pub open spec fn word(self, i: int) -> Seq<char> {
        self.placements[i].0
    }

    /// The span of the word at position `i` of the list.
    pub open spec fn span(self, i: int) -> WordSpan {
        self.placements[i].1
    }

    /// The characters found in the grid along a span, in reading order.
    pub open spec fn read(self, span: WordSpan) -> Seq<char> {
        Seq::new(span.len as nat, |k: int| self.cells[span.cell(k).0][span.cell(k).1])
    }

    /// Whether letter `k` of placement `i` lies on the coordinate.
    pub open spec fn letter_at(self, i: int, k: int, row: int, column: int) -> bool {
        &&& 0 <= i < self.placements.len()
        &&& 0 <= k < self.span(i).len
        &&& self.span(i).cell(k) == (row, column)
    }

    /// Whether some word covers the coordinate.
    pub open spec fn covered(self, row: int, column: int) -> bool {
        exists|i: int, k: int| self.letter_at(i, k, row, column)
    }

    /// Whether a letter lying on the coordinate comes before letter `m` of
    /// placement `n`, in the order in which the letters are written.
    pub open spec fn written(self, n: int, m: int, row: int, column: int) -> bool {
        exists|i: int, k: int|
            #![trigger self.letter_at(i, k, row, column)]
            self.letter_at(i, k, row, column) && (i < n || (i == n && k < m))
    }

    /// Whether the grid holds every letter that comes before letter `m` of
    /// placement `n`, on the letter's coordinate.
    pub open spec fn holds_letters_before(self, n: int, m: int) -> bool {
        forall|i: int, k: int|
            #![trigger self.span(i).cell(k)]
            0 <= i < self.placements.len() && 0 <= k < self.span(i).len && (i < n || (i == n && k
                < m)) ==> self.cells[self.span(i).cell(k).0][self.span(i).cell(k).1] == self.word(
                i,
            )[k]
    }

    /// Whether the grid still holds what `before` held, on every coordinate
    /// but those of the letters that come before letter `m` of placement `n`.
    pub open spec fn keeps_unwritten(self, before: Puzzle, n: int, m: int) -> bool {
        forall|row: int, column: int|
            before.has_cell(row, column) && !before.written(n, m, row, column) ==> (
            #[trigger] self.cells[row][column]) == before.cells[row][column]
    }

    /// Whether the grid read along each placement's span gives the
    /// placement's word.
    pub open spec fn spelled(self) -> bool {
        forall|i: int|
            0 <= i < self.placements.len() ==> self.read(#[trigger] self.span(i)) == self.word(i)
    }

    /// Whether the puzzle has the dimensions of `before`, and its characters
    /// on every coordinate that no word covers.
    pub open spec fn same_but_words(self, before: Puzzle) -> bool {
        &&& self.cells.len() == before.cells.len()
        &&& self.num_columns == before.num_columns
        &&& forall|row: int, column: int|
            before.has_cell(row, column) && !before.covered(row, column) ==> (
            #[trigger] self.cells[row][column]) == before.cells[row][column]
    }

    /// What the words' spans must meet for the words to be written into the
    /// grid: every span is as long as its word, keeps every letter inside
    /// the grid, and shares no coordinate with another.
    pub open spec fn placeable(self) -> bool {
        &&& forall|i: int|
            0 <= i < self.placements.len() ==> (#[trigger] self.span(i)).len == self.word(i).len()
        &&& forall|i: int|
            0 <= i < self.placements.len() ==> (#[trigger] self.span(i)).inside(
                self.num_rows() as int,
                self.num_columns as int,
            )
        &&& forall|i: int, j: int|
            #![trigger self.span(i), self.span(j)]
            0 <= i < self.placements.len() && 0 <= j < self.placements.len() && i != j
                ==> !self.span(i).meets(&self.span(j))
    }

    /// The word printed beside row `row`: the word at that position of the
    /// list, or nothing where the list is shorter.
    pub open spec fn word_beside(self, row: int) -> Seq<char> {
        if 0 <= row < self.placements.len() {
            self.word(row)
        } else {
            Seq::empty()
        }
    }

    /// One printed line: the row's characters, a space after each, then a
    /// bar, the word beside the row between two spaces, and a line break.
    pub open spec fn line(self, row: int) -> Seq<char> {
        spaced(self.cells[row]) + seq!['|', ' '] + self.word_beside(row) + seq![' ', '\n']
    }

    /// The first `n` printed lines, one after the other.
    pub open spec fn lines(self, n: int) -> Seq<char>
        decreases n,
    {
        if n <= 0 {
            Seq::empty()
        } else {
            self.lines(n - 1) + self.line(n - 1)
        }
    }

    /// The whole puzzle as text: one line per row of the grid.
    pub open spec fn rendering(self) -> Seq<char> {
        self.lines(self.num_rows() as int)
    }

    /// Well-formedness: the grid is rectangular; the spans are placeable,
    /// and each passes the bounds test for the grid; and the grid read along
    /// each span gives the span's word.
    pub open spec fn wf(self) -> bool {
        &&& self.rectangular()
        &&& self.placeable()
        &&& forall|i: int|
            0 <= i < self.placements.len() ==> (#[trigger] self.span(i)).within(
                self.num_rows() as int,
                self.num_columns as int,
            )
        &&& self.spelled()
    }

    /// Whether the puzzle answers a configuration: it is well-formed, has
    /// the configured dimensions, places the configured words in their
    /// order, uses forward-facing directions only where backward ones are
    /// not allowed, and fills every uncovered cell with a permitted letter.
    pub open spec fn answers(self, config: WordSearchConfig) -> bool {
        &&& self.wf()
        &&& self.num_rows() == config.num_rows
        &&& self.num_columns == config.num_columns
        &&& self.placements.len() == config.words@.len()
        &&& forall|i: int|
            0 <= i < self.placements.len() ==> #[trigger] self.word(i) == config.words@[i]@
        &&& !config.allow_backward_words ==> forall|i: int|
            0 <= i < self.placements.len() ==> (#[trigger] self.span(i)).direction.is_forward()
        &&& forall|row: int, column: int|
            self.has_cell(row, column) && !self.covered(row, column) ==> config.is_filler(
                #[trigger] self.cells[row][column],
            )
    }
}

/// Writing letter `k` of placement `n` keeps the grid rectangular, adds
/// the letter to those the grid holds, and leaves alone what no letter so
/// far has covered.
pub proof fn lemma_write_letter(before: Puzzle, now: Puzzle, next: Puzzle, n: int, k: int)
    requires
        before.rectangular(),
        before.placeable(),
        now.rectangular(),
        now.placements == before.placements,
        now.cells.len() == before.cells.len(),
        now.num_columns == before.num_columns,
        0 <= n < before.placements.len(),
        0 <= k < before.span(n).len,
        now.holds_letters_before(n, k),
        now.keeps_unwritten(before, n, k),
        next.placements == now.placements,
        next.num_columns == now.num_columns,
        next.cells == now.cells.update(
            before.span(n).cell(k).0,
            now.cells[before.span(n).cell(k).0].update(
                before.span(n).cell(k).1,
                before.word(n)[k],
            ),
        ),
    ensures
        next.rectangular(),
        next.cells.len() == before.cells.len(),
        next.holds_letters_before(n, k + 1),
        next.keeps_unwritten(before, n, k + 1),
{
    let here = before.span(n).cell(k);
    assert(before.letter_at(n, k, here.0, here.1));
    assert(before.has_cell(here.0, here.1));
    assert forall|r: int| 0 <= r < next.cells.len() implies (#[trigger] next.cells[r]).len()
        == next.num_columns by {
        assert(now.cells[r].len() == now.num_columns);
    }
    assert forall|i: int, m: int|
        #![trigger next.span(i).cell(m)]
        0 <= i < next.placements.len() && 0 <= m < next.span(i).len && (i < n || (i == n && m < k
            + 1)) implies next.cells[next.span(i).cell(m).0][next.span(i).cell(m).1] == next.word(
        i,
    )[m] by {
        let there = before.span(i).cell(m);
        assert(now.span(i).cell(m) == there);
        assert(before.letter_at(i, m, there.0, there.1));
        assert(before.has_cell(there.0, there.1));
        if i == n && m == k {
        } else if i == n {
            assert(there != here);
        } else {
            assert(!before.span(i).meets(&before.span(n)));
            assert(there != here);
        }
    }
    assert forall|row: int, column: int|
        before.has_cell(row, column) && !before.written(n, k + 1, row, column) implies (
    #[trigger] next.cells[row][column]) == before.cells[row][column] by {
        if (row, column) == here {
            assert(before.letter_at(n, k, row, column));
        }
        if before.written(n, k, row, column) {
            let (i, m) = choose|i: int, m: int|
                #![trigger before.letter_at(i, m, row, column)]
                before.letter_at(i, m, row, column) && (i < n || (i == n && m < k));
            assert(before.letter_at(i, m, row, column) && (i < n || (i == n && m < k + 1)));
        }
    }
}

/// Once the last letter of placement `n` is written, the letters written
/// are those that come before the first letter of placement `n + 1`.
pub proof fn lemma_word_written(before: Puzzle, now: Puzzle, n: int)
    requires
        now.placements == before.placements,
        0 <= n < before.placements.len(),
        now.holds_letters_before(n, before.span(n).len as int),
        now.keeps_unwritten(before, n, before.span(n).len as int),
    ensures
        now.holds_letters_before(n + 1, 0),
        now.keeps_unwritten(before, n + 1, 0),
{
    let len = before.span(n).len as int;
    assert forall|row: int, column: int|
        before.has_cell(row, column) && !before.written(n + 1, 0, row, column) implies (
    #[trigger] now.cells[row][column]) == before.cells[row][column] by {
        if before.written(n, len, row, column) {
            let (i, m) = choose|i: int, m: int|
                #![trigger before.letter_at(i, m, row, column)]
                before.letter_at(i, m, row, column) && (i < n || (i == n && m < len));
            assert(before.letter_at(i, m, row, column) && (i < n + 1 || (i == n + 1 && m < 0)));
        }
    }
}

/// Once every placement is written, the grid spells every word and is
/// otherwise what it was.
pub proof fn lemma_all_written(before: Puzzle, now: Puzzle)
    requires
        before.placeable(),
        now.placements == before.placements,
        now.cells.len() == before.cells.len(),
        now.num_columns == before.num_columns,
        now.holds_letters_before(before.placements.len() as int, 0),
        now.keeps_unwritten(before, before.placements.len() as int, 0),
    ensures
        now.spelled(),
        now.same_but_words(before),
{
    let n = before.placements.len() as int;
    assert forall|i: int| 0 <= i < now.placements.len() implies now.read(
        #[trigger] now.span(i),
    ) == now.word(i) by {
        assert(now.span(i) == before.span(i));
        assert(now.read(now.span(i)) =~= now.word(i));
    }
    assert forall|row: int, column: int|
        before.has_cell(row, column) && !before.covered(row, column) implies (
    #[trigger] now.cells[row][column]) == before.cells[row][column] by {
        if before.written(n, 0, row, column) {
            let (i, m) = choose|i: int, m: int|
                #![trigger before.letter_at(i, m, row, column)]
                before.letter_at(i, m, row, column) && (i < n || (i == n && m < 0));
            assert(before.letter_at(i, m, row, column));
        }
    }
}

} // verus!
