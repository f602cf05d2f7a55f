//! The character grid: a two-dimensional array kept by the `array2d` crate,
//! with what the generator needs to know of it.

use crate::sample::pick_letter;
use array2d::Array2D;
use vstd::prelude::*;

verus! {

/// Makes `array2d::Array2D` known to the verifier as an opaque type.
#[verifier::external_type_specification]
#[verifier::external_body]
#[verifier::reject_recursive_types(T)]
pub struct ExArray2D<T>(Array2D<T>);

/// The rows of a grid, each the sequence of the characters it holds.
pub uninterp spec fn grid_cells(grid: Array2D<char>) -> Seq<Seq<char>>;

/// The number of columns a grid was made with.
pub uninterp spec fn grid_columns(grid: Array2D<char>) -> nat;

/// Whether the grid has `num_rows` rows of `num_columns` characters each.
pub open spec fn grid_has_shape(grid: Array2D<char>, num_rows: nat, num_columns: nat) -> bool {
    &&& grid_cells(grid).len() == num_rows
    &&& grid_columns(grid) == num_columns
    &&& forall|r: int| 0 <= r < num_rows ==> (#[trigger] grid_cells(grid)[r]).len() == num_columns
}

/// Builds a grid of the given dimensions whose cells each hold a letter
/// picked from `letters`.
///
/// Trusted: calls `Array2D::filled_by_row_major`, which multiplies the two
/// dimensions (hence the bound on their product), calls the generator once
/// per cell and stores what it returned, and records the dimensions as given.
/// The generator is `pick_letter`, so every cell holds one of `letters`.
#[verifier::external_body]
pub(crate) fn create_grid_with_letters(
    num_rows: usize,
    num_columns: usize,
    letters: &[char],
) -> (grid: Array2D<char>)
    requires
        num_rows * num_columns <= usize::MAX,
        num_rows * num_columns > 0 ==> letters@.len() > 0,
    ensures
        grid_has_shape(grid, num_rows as nat, num_columns as nat),
        forall|r: int, c: int|
            0 <= r < num_rows && 0 <= c < num_columns ==> letters@.contains(
                #[trigger] grid_cells(grid)[r][c],
            ),
{
    Array2D::filled_by_row_major(|| pick_letter(letters), num_rows, num_columns)
}

/// The number of rows of a grid.
///
/// Trusted: calls `Array2D::num_rows`, which returns the row count the grid
/// was made with.
#[verifier::external_body]
pub(crate) fn grid_num_rows(grid: &Array2D<char>) -> (n: usize)
    ensures
        n == grid_cells(*grid).len(),
{
    grid.num_rows()
}

/// The number of columns of a grid.
///
/// Trusted: calls `Array2D::num_columns`, which returns the column count the
/// grid was made with.
#[verifier::external_body]
pub(crate) fn grid_num_columns(grid: &Array2D<char>) -> (n: usize)
    ensures
        n == grid_columns(*grid),
{
    grid.num_columns()
}

/// The character at a coordinate, or nothing where the coordinate lies
/// outside the grid.
///
/// Trusted: calls `Array2D::get`, which answers `None` unless the row is
/// below the row count and the column below the column count, and otherwise
/// refers to the element stored for that row and column.
#[verifier::external_body]
pub(crate) fn grid_get(grid: &Array2D<char>, row: usize, column: usize) -> (found: Option<&char>)
    ensures
        found.is_some() == (row < grid_cells(*grid).len() && column < grid_columns(*grid)),
        found.is_some() ==> *found.unwrap() == grid_cells(*grid)[row as int][column as int],
{
    grid.get(row, column)
}

/// Overwrites the character at a coordinate inside the grid.
///
/// Trusted: assigns through `Array2D`'s `IndexMut`, which panics outside the
/// grid (hence the bounds) and otherwise replaces the one element stored for
/// that row and column, leaving the dimensions as they were.
#[verifier::external_body]
pub(crate) fn grid_set(grid: &mut Array2D<char>, row: usize, column: usize, letter: char)
    requires
        row < grid_cells(*old(grid)).len(),
        column < grid_columns(*old(grid)),
    ensures
        grid_cells(*final(grid)) == grid_cells(*old(grid)).update(
            row as int,
            grid_cells(*old(grid))[row as int].update(column as int, letter),
        ),
        grid_columns(*final(grid)) == grid_columns(*old(grid)),
{
    grid[(row, column)] = letter;
}

} // verus!
