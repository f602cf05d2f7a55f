//! What a caller asks for, and the ways in which a request can fail.

use crate::letters::{longest, lowercase_letters, occurs_in, word_lengths};
use vstd::prelude::*;

verus! {

/// An error that happened when creating the word search.
#[derive(Clone, Copy, Debug)]
pub enum Error<'a> {
    /// Either the number of rows or the number of columns in the word search
    /// config is too small, meaning that not all words in the given list can
    /// fit in the grid. Carries the two dimensions and the word list.
    DimensionsTooSmall(usize, usize, &'a [String]),
    /// The word search was configured to fill non-word spaces using only
    /// letters contained in the words, but no words were given.
    NoGivenLettersToUseInGrid,
    /// The allowed number of placement attempts was used up before every
    /// word had found a place.
    AttemptLimitReached,
}

/// The configuration for the word search.
#[derive(Debug)]
pub struct WordSearchConfig<'a> {
    /// The number of rows.
    pub num_rows: usize,
    /// The number of columns.
    pub num_columns: usize,
    /// The list of words that will appear in the word search.
    pub words: &'a [String],
    /// Whether to fill empty (non-word) spaces in the word search with only
    /// letters that appear in the given list of words.
    pub use_only_given_letters_in_grid: bool,
    /// Whether backward-facing directions are allowed. Backward-facing
    /// directions are any direction that is read right-to-left or
    /// down-to-up.
    pub allow_backward_words: bool,
}

impl<'a> WordSearchConfig<'a> {
    /// Whether some word has more characters than the grid has rows, or
    /// than it has columns.
    pub open spec fn too_small(&self) -> bool {
        exists|i: int|
            0 <= i < self.words@.len() && ((#[trigger] self.words@[i])@.len() > self.num_rows
                || self.words@[i]@.len() > self.num_columns)
    }

    /// Whether filler letters are to come from the words although there is
    /// no word.
    pub open spec fn lacks_letters(&self) -> bool {
        self.use_only_given_letters_in_grid && self.words@.len() == 0
    }

    /// Whether `c` may fill a cell that no word covers.
    pub open spec fn is_filler(&self, c: char) -> bool {
        if self.use_only_given_letters_in_grid {
            occurs_in(self.words@, c)
        } else {
            lowercase_letters().contains(c)
        }
    }

    /// What a configuration must meet for `WordSearch::new` to run. One that
    /// is turned down as too small, or for its lack of letters, meets it
    /// already. Of any other, the number of cells must fit a machine
    /// integer; where there are words, both dimensions must be positive, so
    /// that a start coordinate can be drawn; and where the filler letters
    /// come from the words, the words must hold at least one character to
    /// draw.
    pub open spec fn buildable(&self) -> bool {
        !self.too_small() && !self.lacks_letters() ==> {
            &&& self.num_rows * self.num_columns <= usize::MAX
            &&& self.words@.len() > 0 ==> self.num_rows > 0 && self.num_columns > 0
            &&& self.use_only_given_letters_in_grid ==> exists|c: char| occurs_in(self.words@, c)
        }
    }

    /// Tells whether some word is too long for the grid.
    pub fn is_too_small(&self) -> (b: bool)
        ensures
            b == self.too_small(),
    {
        let lengths = word_lengths(self.words);
        match longest(lengths.as_slice()) {
            Some(longest_word_length) => {
                let b = longest_word_length > self.num_rows || longest_word_length
                    > self.num_columns;
                proof {
                    let i = lengths@.index_of(longest_word_length);
                    assert(self.words@[i]@.len() == longest_word_length);
                    if !b {
                        assert forall|k: int| 0 <= k < self.words@.len() implies (
                        #[trigger] self.words@[k])@.len() <= self.num_rows
                            && self.words@[k]@.len() <= self.num_columns by {
                            assert(lengths@[k] == self.words@[k]@.len());
                        }
                    }
                }
                b
            },
            None => false,
        }
    }

    /// Tells whether `WordSearch::new` can run on the configuration.
    pub fn is_buildable(&self) -> (b: bool)
        ensures
            b == self.buildable(),
    {
        if self.is_too_small() {
            return true;
        }
        if self.use_only_given_letters_in_grid && self.words.len() == 0 {
            return true;
        }
        if self.num_rows.checked_mul(self.num_columns).is_none() {
            return false;
        }
        if self.words.len() > 0 && (self.num_rows == 0 || self.num_columns == 0) {
            return false;
        }
        if !self.use_only_given_letters_in_grid {
            return true;
        }
        let mut i: usize = 0;
        while i < self.words.len()
            invariant
                !self.too_small(),
                self.num_rows * self.num_columns <= usize::MAX,
                self.words@.len() > 0 ==> self.num_rows > 0 && self.num_columns > 0,
                self.use_only_given_letters_in_grid,
                i <= self.words@.len(),
                forall|k: int| 0 <= k < i ==> (#[trigger] self.words@[k])@.len() == 0,
            decreases self.words@.len() - i,
        {
            if !self.words[i].as_str().is_empty() {
                proof {
                    let c = self.words@[i as int]@[0];
                    assert(occurs_in(self.words@, c));
                }
                return true;
            }
            i = i + 1;
        }
        false
    }
}

} // verus!
