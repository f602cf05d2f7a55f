//! The steps of building a puzzle: filling the grid, finding a place for
//! every word, and writing the words in.

use crate::config::Error;
use crate::direction::WordDirection;
use crate::grid::{
    create_grid_with_letters, grid_cells, grid_columns, grid_has_shape, grid_num_columns,
    grid_num_rows, grid_set,
};
use crate::letters::{alphabet, letters_of, lowercase_letters, occurs_in, word_lengths};
use crate::text::chars_of;
use crate::puzzle::{
    arranged, lemma_all_written, lemma_word_written, lemma_write_letter, placements_of, puzzle_of,
};
use crate::sample::random_below;
use crate::search::WordSearch;
use crate::span::{lemma_meets_symmetric, lemma_within_is_inside, WordSpan};
use array2d::Array2D;
use vstd::prelude::*;

verus! {

impl WordSearch {
    /// Builds a grid whose cells each hold a random lowercase letter.
    pub fn create_grid(num_rows: usize, num_columns: usize) -> (grid: Array2D<char>)
        requires
            num_rows * num_columns <= usize::MAX,
        ensures
            grid_has_shape(grid, num_rows as nat, num_columns as nat),
            forall|r: int, c: int|
                0 <= r < num_rows && 0 <= c < num_columns ==> lowercase_letters().contains(
                    #[trigger] grid_cells(grid)[r][c],
                ),
    {
        let letters = alphabet();
        create_grid_with_letters(num_rows, num_columns, letters.as_slice())
    }

    /// Builds a grid whose cells each hold a random character out of those
    /// that appear in `words`, or fails where there is no word.
    pub fn create_grid_from_words<'a>(
        num_rows: usize,
        num_columns: usize,
        words: &[String],
    ) -> (made: Result<Array2D<char>, Error<'a>>)
        requires
            words@.len() > 0 ==> num_rows * num_columns <= usize::MAX,
            words@.len() > 0 ==> exists|c: char| occurs_in(words@, c),
        ensures
            words@.len() == 0 <==> made is Err,
            made is Err ==> made->Err_0 == Error::<'a>::NoGivenLettersToUseInGrid,
            made is Ok ==> grid_has_shape(made->Ok_0, num_rows as nat, num_columns as nat),
            made is Ok ==> forall|r: int, c: int|
                0 <= r < num_rows && 0 <= c < num_columns ==> occurs_in(
                    words@,
                    #[trigger] grid_cells(made->Ok_0)[r][c],
                ),
    {
        if words.len() == 0 {
            return Err(Error::NoGivenLettersToUseInGrid);
        }
        let letters = letters_of(words);
        proof {
            let c = choose|c: char| occurs_in(words@, c);
            assert(letters@.contains(c));
        }
        Ok(create_grid_with_letters(num_rows, num_columns, letters.as_slice()))
    }

    /// Finds a span for every word, in the order of the words: a start
    /// coordinate and a direction are drawn at random until the span they
    /// give is accepted, and then the next word has its turn. Gives up, with
    /// no spans at all, once `max_attempts` draws have been made and a word
    /// is still without a place.
    pub fn generate_spans(
        num_rows: usize,
        num_columns: usize,
        words: &[String],
        allow_backward_words: bool,
        max_attempts: usize,
    ) -> (found: Option<Vec<WordSpan>>)
        requires
            words@.len() > 0 ==> num_rows > 0 && num_columns > 0,
        ensures
            found is Some ==> arranged(
                found->0@,
                words@,
                num_rows as int,
                num_columns as int,
                allow_backward_words,
            ),
            words@.len() == 0 ==> found is Some,
            max_attempts < words@.len() ==> found is None,
    {
        let lengths = word_lengths(words);
        let mut spans: Vec<WordSpan> = Vec::with_capacity(words.len());
        let mut attempts: usize = 0;
        while spans.len() < words.len()
            invariant
                words@.len() > 0 ==> num_rows > 0 && num_columns > 0,
                lengths@.len() == words@.len(),
                forall|i: int| 0 <= i < words@.len() ==> lengths@[i] == words@[i]@.len(),
                spans@.len() <= words@.len(),
                spans@.len() <= attempts <= max_attempts,
                arranged(
                    spans@,
                    words@.take(spans@.len() as int),
                    num_rows as int,
                    num_columns as int,
                    allow_backward_words,
                ),
            decreases max_attempts - attempts,
        {
            if attempts >= max_attempts {
                return None;
            }
            attempts = attempts + 1;
            let pos: (usize, usize) = (random_below(num_rows), random_below(num_columns));
            let len: usize = lengths[spans.len()];
            let dir = if allow_backward_words {
                WordDirection::random()
            } else {
                WordDirection::random_forward()
            };
            let span = WordSpan::new(pos, len, dir);
            proof {
                assert forall|i: int| 0 <= i < spans@.len() implies (
                #[trigger] spans@[i]).representable() by {
                    lemma_within_is_inside(spans@[i], num_rows as int, num_columns as int);
                }
            }
            if span.fits(num_rows, num_columns, &spans) {
                let ghost before = spans@;
                spans.push(span);
                proof {
                    let now = spans@;
                    assert forall|i: int, j: int|
                        #![trigger now[i], now[j]]
                        0 <= i < now.len() && 0 <= j < now.len() && i != j implies !now[i].meets(
                            &now[j],
                        ) by {
                        if i < before.len() && j < before.len() {
                            assert(!before[i].meets(&before[j]));
                        } else if i < before.len() {
                            assert(!span.meets(&before[i]));
                            lemma_meets_symmetric(span, before[i]);
                        } else {
                            assert(!span.meets(&before[j]));
                        }
                    }
                }
            }
        }
        assert(words@.take(words@.len() as int) =~= words@);
        Some(spans)
    }

    /// Writes each word's characters onto the grid cells of its span, in
    /// order, over whatever the cells held.
    pub fn place_words(grid: &mut Array2D<char>, word_spans: &[(String, WordSpan)])
        requires
            puzzle_of(*old(grid), word_spans@).rectangular(),
            puzzle_of(*old(grid), word_spans@).placeable(),
        ensures
            puzzle_of(*final(grid), word_spans@).rectangular(),
            puzzle_of(*final(grid), word_spans@).spelled(),
            puzzle_of(*final(grid), word_spans@).same_but_words(puzzle_of(*old(grid), word_spans@)),
    {
        let ghost before = puzzle_of(*grid, word_spans@);
        let num_rows = grid_num_rows(grid);
        let num_columns = grid_num_columns(grid);
        let mut n: usize = 0;
        while n < word_spans.len()
            invariant
                n <= word_spans@.len(),
                before.rectangular(),
                before.placeable(),
                before.placements == placements_of(word_spans@),
                num_rows == before.cells.len() == grid_cells(*grid).len(),
                num_columns == before.num_columns == grid_columns(*grid),
                puzzle_of(*grid, word_spans@).rectangular(),
                puzzle_of(*grid, word_spans@).holds_letters_before(n as int, 0),
                puzzle_of(*grid, word_spans@).keeps_unwritten(before, n as int, 0),
            decreases word_spans@.len() - n,
        {
            let chars = chars_of(word_spans[n].0.as_str());
            let span: WordSpan = word_spans[n].1;
            assert(span == before.span(n as int));
            assert(chars@ == before.word(n as int));
            let indices = span.indices();
            let mut k: usize = 0;
            while k < indices.len()
                invariant
                    n < word_spans@.len(),
                    k <= span.len,
                    span == before.span(n as int),
                    chars@ == before.word(n as int),
                    indices@.len() == span.len,
                    forall|i: int|
                        0 <= i < span.len ==> (indices@[i].0 as int, indices@[i].1 as int)
                            == span.cell(i),
                    before.rectangular(),
                    before.placeable(),
                    before.placements == placements_of(word_spans@),
                    num_rows == before.cells.len() == grid_cells(*grid).len(),
                    num_columns == before.num_columns == grid_columns(*grid),
                    puzzle_of(*grid, word_spans@).rectangular(),
                    puzzle_of(*grid, word_spans@).holds_letters_before(n as int, k as int),
                    puzzle_of(*grid, word_spans@).keeps_unwritten(before, n as int, k as int),
                decreases span.len - k,
            {
                let ghost now = puzzle_of(*grid, word_spans@);
                assert(before.has_cell(span.cell(k as int).0, span.cell(k as int).1));
                grid_set(grid, indices[k].0, indices[k].1, chars[k]);
                proof {
                    lemma_write_letter(
                        before,
                        now,
                        puzzle_of(*grid, word_spans@),
                        n as int,
                        k as int,
                    );
                }
                k = k + 1;
            }
            proof {
                lemma_word_written(before, puzzle_of(*grid, word_spans@), n as int);
            }
            n = n + 1;
        }
        proof {
            lemma_all_written(before, puzzle_of(*grid, word_spans@));
        }
    }
}

} // verus!
