//! What holds of every puzzle that answers a configuration.

use crate::config::WordSearchConfig;
use crate::letters::occurs_in;
use crate::puzzle::Puzzle;
use crate::span::{lemma_meets_is_shared_cell, lemma_too_long_is_out_of_bounds};
use vstd::prelude::*;

verus! {

/// Two different placements of a well-formed puzzle occupy disjoint sets of
/// coordinates.
pub proof fn lemma_placements_disjoint(puzzle: Puzzle, i: int, j: int)
    requires
        puzzle.wf(),
        0 <= i < puzzle.placements.len(),
        0 <= j < puzzle.placements.len(),
        i != j,
    ensures
        puzzle.span(i).cells().to_set().disjoint(puzzle.span(j).cells().to_set()),
{
    let a = puzzle.span(i);
    let b = puzzle.span(j);
    assert(!a.meets(&b));
    lemma_meets_is_shared_cell(a, b);
    assert forall|p: (int, int)|
        !(a.cells().to_set().contains(p) && b.cells().to_set().contains(p)) by {
        if a.cells().contains(p) && b.cells().contains(p) {
            assert(false);
        }
    }
}

/// Every placement of a well-formed puzzle passes the bounds test for the
/// puzzle's grid, and each of its letters lies on a cell of the grid.
pub proof fn lemma_placements_in_bounds(puzzle: Puzzle, i: int)
    requires
        puzzle.wf(),
        0 <= i < puzzle.placements.len(),
    ensures
        puzzle.span(i).within(puzzle.num_rows() as int, puzzle.num_columns as int),
        forall|k: int|
            0 <= k < puzzle.span(i).len ==> puzzle.has_cell(
                (#[trigger] puzzle.span(i).cell(k)).0,
                puzzle.span(i).cell(k).1,
            ),
{
}

/// A puzzle that answers a configuration has one placement per configured
/// word, and none exactly if no word was configured.
pub proof fn lemma_one_placement_per_word(puzzle: Puzzle, config: WordSearchConfig)
    requires
        puzzle.answers(config),
    ensures
        puzzle.placements.len() == config.words@.len(),
        puzzle.placements.len() == 0 <==> config.words@.len() == 0,
        forall|i: int|
            0 <= i < config.words@.len() ==> (#[trigger] puzzle.placements[i]).0
                == config.words@[i]@,
{
    assert forall|i: int| 0 <= i < config.words@.len() implies (#[trigger] puzzle.placements[i]).0
        == config.words@[i]@ by {
        assert(puzzle.word(i) == config.words@[i]@);
    }
}

/// A puzzle that answers a configuration has a grid of exactly the
/// configured dimensions, with one character in every cell.
pub proof fn lemma_grid_has_configured_shape(puzzle: Puzzle, config: WordSearchConfig)
    requires
        puzzle.answers(config),
    ensures
        puzzle.cells.len() == config.num_rows,
        puzzle.num_columns == config.num_columns,
        forall|row: int|
            0 <= row < config.num_rows ==> (#[trigger] puzzle.cells[row]).len()
                == config.num_columns,
{
}

/// Reading the grid of a well-formed puzzle along a placement's span gives
/// the placement's word, character by character.
pub proof fn lemma_words_read_back(puzzle: Puzzle, i: int)
    requires
        puzzle.wf(),
        0 <= i < puzzle.placements.len(),
    ensures
        puzzle.read(puzzle.span(i)) == puzzle.word(i),
        puzzle.span(i).len == puzzle.word(i).len(),
        forall|k: int|
            0 <= k < puzzle.word(i).len() ==> puzzle.cells[(#[trigger] puzzle.span(i).cell(
                k,
            )).0][puzzle.span(i).cell(k).1] == puzzle.word(i)[k],
{
    let span = puzzle.span(i);
    assert forall|k: int| 0 <= k < puzzle.word(i).len() implies puzzle.cells[(
    #[trigger] span.cell(k)).0][span.cell(k).1] == puzzle.word(i)[k] by {
        assert(puzzle.read(span)[k] == puzzle.word(i)[k]);
    }
}

/// Where the filler letters were to come from the words, every character
/// of the grid appears in some configured word: the cells that no word
/// covers, and the covered ones too.
pub proof fn lemma_only_given_letters(puzzle: Puzzle, config: WordSearchConfig)
    requires
        puzzle.answers(config),
        config.use_only_given_letters_in_grid,
    ensures
        forall|row: int, column: int|
            puzzle.has_cell(row, column) ==> occurs_in(
                config.words@,
                #[trigger] puzzle.cells[row][column],
            ),
{
    assert forall|row: int, column: int| puzzle.has_cell(row, column) implies occurs_in(
        config.words@,
        #[trigger] puzzle.cells[row][column],
    ) by {
        if puzzle.covered(row, column) {
            let (i, k) = choose|i: int, k: int| puzzle.letter_at(i, k, row, column);
            assert(puzzle.word(i) == config.words@[i]@);
            assert(puzzle.read(puzzle.span(i))[k] == puzzle.word(i)[k]);
            assert(config.words@[i]@[k] == puzzle.cells[row][column]);
        } else {
            assert(config.is_filler(puzzle.cells[row][column]));
        }
    }
}

/// Where backward words were not allowed, every placement of a puzzle that
/// answers the configuration faces forward.
pub proof fn lemma_forward_only(puzzle: Puzzle, config: WordSearchConfig, i: int)
    requires
        puzzle.answers(config),
        !config.allow_backward_words,
        0 <= i < puzzle.placements.len(),
    ensures
        puzzle.span(i).direction.is_forward(),
{
}

/// No puzzle answers a configuration with a word that is at least as long
/// as the grid is high and wide, though such a word need not be too long
/// for the grid to be turned down as too small.
pub proof fn lemma_no_answer_with_a_word_too_long(puzzle: Puzzle, config: WordSearchConfig, i: int)
    requires
        0 <= i < config.words@.len(),
        config.words@[i]@.len() >= config.num_rows,
        config.words@[i]@.len() >= config.num_columns,
    ensures
        !puzzle.answers(config),
{
    if puzzle.answers(config) {
        assert(puzzle.word(i) == config.words@[i]@);
        assert(puzzle.span(i).within(config.num_rows as int, config.num_columns as int));
        lemma_too_long_is_out_of_bounds(
            puzzle.span(i),
            config.num_rows as int,
            config.num_columns as int,
        );
    }
}

} // verus!
