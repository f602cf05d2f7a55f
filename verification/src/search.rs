//! The finished puzzle and how one is made.

use crate::config::{Error, WordSearchConfig};
use crate::grid::{grid_cells, grid_columns, grid_get, grid_num_columns, grid_num_rows};
use crate::text::{chars_of, string_of};
use crate::puzzle::{placements_of, puzzle_of, spaced, Puzzle};
use crate::span::{lemma_within_is_inside, WordSpan};
use array2d::Array2D;
use vstd::prelude::*;

verus! {

/// A word search object that contains a grid of characters and a list of
/// each word and their positions within the grid.
#[derive(Debug)]
pub struct WordSearch {
    grid: Array2D<char>,
    word_spans: Vec<(String, WordSpan)>,
}

impl View for WordSearch {
    type V = Puzzle;

    closed spec fn view(&self) -> Puzzle {
        puzzle_of(self.grid, self.word_spans@)
    }
}

/// Pairs each word, copied, with the span at the same position.
fn pair_up(words: &[String], spans: &Vec<WordSpan>) -> (word_spans: Vec<(String, WordSpan)>)
    requires
        spans@.len() == words@.len(),
    ensures
        word_spans@.len() == words@.len(),
        forall|i: int|
            0 <= i < words@.len() ==> (#[trigger] word_spans@[i]).0 == words@[i] && word_spans@[i].1
                == spans@[i],
{
    let mut word_spans: Vec<(String, WordSpan)> = Vec::with_capacity(words.len());
    let mut i: usize = 0;
    while i < words.len()
        invariant
            spans@.len() == words@.len(),
            i <= words@.len(),
            word_spans@.len() == i,
            forall|k: int|
                0 <= k < i ==> (#[trigger] word_spans@[k]).0 == words@[k] && word_spans@[k].1
                    == spans@[k],
        decreases words@.len() - i,
    {
        word_spans.push((words[i].clone(), spans[i]));
        i = i + 1;
    }
    word_spans
}

impl WordSearch {
    #[verifier::type_invariant]
    spec fn well_formed(&self) -> bool {
        self@.wf()
    }

    /// Creates and generates a new word search with the specified
    /// configuration, or returns an error if the word search can't be
    /// created.
    ///
    /// When `config.use_only_given_letters_in_grid` is true, the spaces in
    /// the grid that are not taken up by the given words are filled with
    /// letters contained in the given words; otherwise with letters from
    /// `a` to `z`. When `config.allow_backward_words` is false, words only
    /// appear in the down, up-right, right and down-right directions.
    ///
    /// Places are drawn at random for a word until one is accepted, at most
    /// `usize::MAX` times over all words.
    pub fn new<'a>(config: &WordSearchConfig<'a>) -> (made: Result<WordSearch, Error<'a>>)
        requires
            config.buildable(),
        ensures
            config.too_small() ==> made == Err::<WordSearch, Error<'a>>(
                Error::DimensionsTooSmall(config.num_rows, config.num_columns, config.words),
            ),
            !config.too_small() && config.lacks_letters() ==> made == Err::<WordSearch, Error<'a>>(
                Error::NoGivenLettersToUseInGrid,
            ),
            !config.too_small() && !config.lacks_letters() ==> (match made {
                Ok(puzzle) => puzzle@.answers(*config),
                Err(e) => e == Error::<'a>::AttemptLimitReached && config.words@.len() > 0,
            }),
    {
        Self::with_attempt_limit(config, usize::MAX)
    }

    /// Does what `new` does, with a limit of the caller's choosing on the
    /// number of places drawn, over all words.
    pub fn with_attempt_limit<'a>(
        config: &WordSearchConfig<'a>,
        max_attempts: usize,
    ) -> (made: Result<WordSearch, Error<'a>>)
        requires
            config.buildable(),
        ensures
            config.too_small() ==> made == Err::<WordSearch, Error<'a>>(
                Error::DimensionsTooSmall(config.num_rows, config.num_columns, config.words),
            ),
            !config.too_small() && config.lacks_letters() ==> made == Err::<WordSearch, Error<'a>>(
                Error::NoGivenLettersToUseInGrid,
            ),
            !config.too_small() && !config.lacks_letters() ==> (match made {
                Ok(puzzle) => puzzle@.answers(*config),
                Err(e) => e == Error::<'a>::AttemptLimitReached && config.words@.len() > 0,
            }),
            !config.too_small() && !config.lacks_letters() && max_attempts < config.words@.len()
                ==> made is Err,
    {
        if config.is_too_small() {
            return Err(
                Error::DimensionsTooSmall(config.num_rows, config.num_columns, config.words),
            );
        }
        let mut grid = if config.use_only_given_letters_in_grid {
            match Self::create_grid_from_words(config.num_rows, config.num_columns, config.words) {
                Ok(grid) => grid,
                Err(e) => {
                    return Err(e);
                },
            }
        } else {
            Self::create_grid(config.num_rows, config.num_columns)
        };
        let ghost filled = grid_cells(grid);
        let found = Self::generate_spans(
            grid_num_rows(&grid),
            grid_num_columns(&grid),
            config.words,
            config.allow_backward_words,
            max_attempts,
        );
        let spans = match found {
            Some(spans) => spans,
            None => {
                return Err(Error::AttemptLimitReached);
            },
        };
        let word_spans = pair_up(config.words, &spans);
        proof {
            let before = puzzle_of(grid, word_spans@);
            assert forall|i: int| 0 <= i < before.placements.len() implies (
            #[trigger] before.span(i)).inside(
                before.num_rows() as int,
                before.num_columns as int,
            ) by {
                assert(before.span(i) == spans@[i]);
                lemma_within_is_inside(
                    spans@[i],
                    config.num_rows as int,
                    config.num_columns as int,
                );
            }
            assert forall|i: int, j: int|
                #![trigger before.span(i), before.span(j)]
                0 <= i < before.placements.len() && 0 <= j < before.placements.len() && i
                    != j implies !before.span(i).meets(&before.span(j)) by {
                assert(before.span(i) == spans@[i]);
                assert(before.span(j) == spans@[j]);
            }
            assert forall|i: int| 0 <= i < before.placements.len() implies (
            #[trigger] before.span(i)).len == before.word(i).len() by {
                assert(before.span(i) == spans@[i]);
            }
        }
        Self::place_words(&mut grid, word_spans.as_slice());
        proof {
            let after = puzzle_of(grid, word_spans@);
            let before = Puzzle { cells: filled, ..after };
            assert(after.placeable());
            assert forall|i: int| 0 <= i < after.placements.len() implies (
            #[trigger] after.span(i)).within(after.num_rows() as int, after.num_columns as int) by {
                assert(after.span(i) == spans@[i]);
            }
            assert forall|i: int| 0 <= i < after.placements.len() implies #[trigger] after.word(i)
                == config.words@[i]@ by {
                assert(word_spans@[i].0 == config.words@[i]);
            }
            if !config.allow_backward_words {
                assert forall|i: int| 0 <= i < after.placements.len() implies (
                #[trigger] after.span(i)).direction.is_forward() by {
                    assert(after.span(i) == spans@[i]);
                }
            }
            assert forall|row: int, column: int|
                after.has_cell(row, column) && !after.covered(row, column) implies config.is_filler(
                #[trigger] after.cells[row][column],
            ) by {
                if before.covered(row, column) {
                    let (i, k) = choose|i: int, k: int| before.letter_at(i, k, row, column);
                    assert(after.letter_at(i, k, row, column));
                }
                assert(after.cells[row][column] == filled[row][column]);
            }
        }
        Ok(WordSearch { grid, word_spans })
    }

    /// The number of rows in the word search grid.
    pub fn num_rows(&self) -> (n: usize)
        ensures
            n == self@.num_rows(),
    {
        grid_num_rows(&self.grid)
    }

    /// The number of columns in the word search grid.
    pub fn num_columns(&self) -> (n: usize)
        ensures
            n == self@.num_columns,
    {
        grid_num_columns(&self.grid)
    }

    /// Provides a reference to the inner word search grid.
    pub fn grid(&self) -> (grid: &Array2D<char>)
        ensures
            grid_cells(*grid) == self@.cells,
            grid_columns(*grid) == self@.num_columns,
            self@.wf(),
    {
        proof {
            use_type_invariant(self);
        }
        &self.grid
    }

    /// Gets the character at the specified coordinate, returning `None` if
    /// the coordinates are out of bounds.
    pub fn get(&self, row: usize, column: usize) -> (cell: Option<char>)
        ensures
            cell == (if self@.has_cell(row as int, column as int) {
                Some(self@.cells[row as int][column as int])
            } else {
                None
            }),
    {
        match grid_get(&self.grid, row, column) {
            Some(letter) => Some(*letter),
            None => None,
        }
    }

    /// The puzzle as text, one line per row of the grid: the row's
    /// characters with a space after each, then a bar and the word at the
    /// row's position in the list, if there is one, between two spaces.
    pub fn render(&self) -> (text: String)
        ensures
            text@ == self@.rendering(),
    {
        proof {
            use_type_invariant(self);
        }
        let num_rows = grid_num_rows(&self.grid);
        let num_columns = grid_num_columns(&self.grid);
        let mut out: Vec<char> = Vec::new();
        let mut row: usize = 0;
        while row < num_rows
            invariant
                self@.wf(),
                num_rows == self@.num_rows(),
                num_columns == self@.num_columns,
                row <= num_rows,
                out@ == self@.lines(row as int),
            decreases num_rows - row,
        {
            let ghost start = out@;
            let ghost cells = self@.cells[row as int];
            let mut column: usize = 0;
            while column < num_columns
                invariant
                    self@.wf(),
                    num_rows == self@.num_rows(),
                    num_columns == self@.num_columns,
                    row < num_rows,
                    column <= num_columns,
                    cells == self@.cells[row as int],
                    out@ == start + spaced(cells.take(column as int)),
                decreases num_columns - column,
            {
                match grid_get(&self.grid, row, column) {
                    Some(letter) => {
                        out.push(*letter);
                        out.push(' ');
                    },
                    None => {},
                }
                proof {
                    let longer = cells.take(column + 1);
                    assert(longer.drop_last() =~= cells.take(column as int));
                    assert(longer.last() == cells[column as int]);
                    assert(out@ =~= start + spaced(longer));
                }
                column = column + 1;
            }
            assert(cells.take(num_columns as int) =~= cells);
            out.push('|');
            out.push(' ');
            if row < self.word_spans.len() {
                let word = chars_of(self.word_spans[row].0.as_str());
                let ghost head = out@;
                let mut k: usize = 0;
                while k < word.len()
                    invariant
                        k <= word@.len(),
                        out@ == head + word@.take(k as int),
                    decreases word@.len() - k,
                {
                    out.push(word[k]);
                    assert(out@ =~= head + word@.take(k + 1));
                    k = k + 1;
                }
                assert(word@.take(word@.len() as int) =~= word@);
            }
            out.push(' ');
            out.push('\n');
            assert(out@ =~= start + self@.line(row as int));
            row = row + 1;
        }
        string_of(&out)
    }

    /// A list containing tuples, where the first element is a word that
    /// appears in the list, and the second element contains information
    /// about the word's location within the grid.
    pub fn word_spans(&self) -> (word_spans: &[(String, WordSpan)])
        ensures
            placements_of(word_spans@) == self@.placements,
            self@.wf(),
    {
        proof {
            use_type_invariant(self);
        }
        self.word_spans.as_slice()
    }
}

impl std::ops::Index<(usize, usize)> for WordSearch {
    type Output = char;

    /// The character at a coordinate of the grid, given as row and column.
    fn index(&self, index: (usize, usize)) -> (letter: &char)
        ensures
            *letter == self@.cells[index.0 as int][index.1 as int],
    {
        let found = grid_get(&self.grid, index.0, index.1);
        found.unwrap()
    }
}

impl vstd::std_specs::core::IndexSpecImpl<(usize, usize)> for WordSearch {
    open spec fn index_req(&self, index: &(usize, usize)) -> bool {
        self@.has_cell(index.0 as int, index.1 as int)
    }
}

} // verus!
