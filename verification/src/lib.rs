//! Word-search puzzle generation: words are laid along straight lines in a
//! rectangular grid of characters and the remaining cells get filler letters.
//!
//! [`WordSearch::new`] builds a puzzle from a [`WordSearchConfig`]. It fills
//! the grid with random letters, draws a start coordinate and a direction
//! for each word until the span they give is in bounds and apart from the
//! spans accepted before it, and writes the words in.
//!
//! The code is verified with Verus. What a puzzle is, mathematically, is in
//! [`puzzle`]; what is proved of every puzzle, in [`laws`]. The grid itself
//! is an `array2d::Array2D` and the random draws come from `rand`: what is
//! taken on trust of the two is stated in [`grid`] and [`sample`].

pub mod config;
pub mod direction;
pub mod generate;
pub mod grid;
pub mod laws;
pub mod letters;
pub mod puzzle;
pub mod sample;
pub mod search;
pub mod span;
pub mod text;

pub use config::{Error, WordSearchConfig};
pub use direction::WordDirection;
pub use search::WordSearch;
pub use span::WordSpan;
