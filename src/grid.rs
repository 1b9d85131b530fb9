//! The board's storage: a two-dimensional `ndarray` array of `i32`, seen by
//! the proofs as a sequence of rows.
//!
//! Every function here that is marked `external_body` makes one call into
//! `ndarray`, and its contract states what that call computes.
use ndarray::{Array2, Axis};
use vstd::prelude::*;

verus! {

/// A two-dimensional `ndarray` array of `i32`, hidden from the proofs and
/// seen through `grid_rows`.
#[verifier::external_body]
pub struct Grid {
    cells: Array2<i32>,
}

/// The elements of a two-dimensional array, row by row.
pub uninterp spec fn grid_rows(a: Grid) -> Seq<Seq<i32>>;

/// Three rows of three elements each.
pub open spec fn is_3x3(g: Seq<Seq<i32>>) -> bool {
    &&& g.len() == 3
    &&& forall|i: int| 0 <= i < 3 ==> #[trigger] g[i].len() == 3
}

/// A 3 by 3 grid whose elements all lie in `-1..=1`.
pub open spec fn is_board(g: Seq<Seq<i32>>) -> bool {
    &&& is_3x3(g)
    &&& forall|i: int, j: int| 0 <= i < 3 && 0 <= j < 3 ==> -1 <= #[trigger] g[i][j] <= 1
}

pub open spec fn row_sum(g: Seq<Seq<i32>>, i: int) -> int {
    g[i][0] + g[i][1] + g[i][2]
}

pub open spec fn col_sum(g: Seq<Seq<i32>>, j: int) -> int {
    g[0][j] + g[1][j] + g[2][j]
}

pub open spec fn main_diag_sum(g: Seq<Seq<i32>>) -> int {
    g[0][0] + g[1][1] + g[2][2]
}

/// The sum of every element of a 3 by 3 grid.
pub open spec fn grid_total(g: Seq<Seq<i32>>) -> int {
    row_sum(g, 0) + row_sum(g, 1) + row_sum(g, 2)
}

pub open spec fn abs(v: int) -> int {
    if v < 0 {
        -v
    } else {
        v
    }
}

/// The grid with `v` written at (`i`, `j`).
pub open spec fn grid_update(g: Seq<Seq<i32>>, i: int, j: int, v: i32) -> Seq<Seq<i32>> {
    g.update(i, g[i].update(j, v))
}

/// Relies on ndarray's `Array2::zeros`: an array of the given shape whose
/// every element is zero. It panics when an axis length, the product of the
/// non-zero axis lengths, or the size in bytes of the buffer overflows
/// `isize`.
#[verifier::external_body]
pub(crate) fn zeros(rows: usize, cols: usize) -> (r: Grid)
    requires
        rows <= isize::MAX,
        cols <= isize::MAX,
        rows * cols * 4 <= isize::MAX,
    ensures
        grid_rows(r).len() == rows,
        forall|i: int| 0 <= i < rows ==> #[trigger] grid_rows(r)[i] == Seq::new(cols as nat, |j: int| 0i32),
{
    Grid { cells: Array2::zeros((rows, cols)) }
}

/// Relies on ndarray's indexing by `[row, col]`: it reads that element, and
/// panics when the index is out of bounds.
#[verifier::external_body]
pub(crate) fn get_cell(a: &Grid, row: usize, col: usize) -> (r: i32)
    requires
        row < grid_rows(*a).len(),
        col < grid_rows(*a)[row as int].len(),
    ensures
        r == grid_rows(*a)[row as int][col as int],
{
    a.cells[[row, col]]
}

/// Relies on ndarray's mutable indexing by `[row, col]`: it overwrites that
/// element alone, and panics when the index is out of bounds.
#[verifier::external_body]
pub(crate) fn set_cell(a: &mut Grid, row: usize, col: usize, v: i32)
    requires
        row < grid_rows(*old(a)).len(),
        col < grid_rows(*old(a))[row as int].len(),
    ensures
        grid_rows(*final(a)) == grid_update(grid_rows(*old(a)), row as int, col as int, v),
{
    a.cells[[row, col]] = v;
}

/// Relies on ndarray's `sum_axis`: summing along axis 0 gives one sum per
/// column, along axis 1 one sum per row. It panics on any other axis.
#[verifier::external_body]
pub(crate) fn sum_axis(a: &Grid, axis: usize) -> (r: Vec<i32>)
    requires
        axis < 2,
        is_board(grid_rows(*a)),
    ensures
        axis == 0 ==> r@.len() == 3 && forall|j: int|
            0 <= j < 3 ==> #[trigger] r@[j] == col_sum(grid_rows(*a), j),
        axis == 1 ==> r@.len() == 3 && forall|i: int|
            0 <= i < 3 ==> #[trigger] r@[i] == row_sum(grid_rows(*a), i),
{
    a.cells.sum_axis(Axis(axis)).to_vec()
}

/// Relies on ndarray's `diag` and `sum`: the sum of the elements at
/// (0, 0), (1, 1) and (2, 2).
#[verifier::external_body]
pub(crate) fn diag_sum(a: &Grid) -> (r: i32)
    requires
        is_board(grid_rows(*a)),
    ensures
        r == main_diag_sum(grid_rows(*a)),
{
    a.cells.diag().sum()
}

/// Relies on ndarray's `dot` on two-dimensional arrays: the matrix product.
#[verifier::external_body]
pub(crate) fn dot(a: &Grid, b: &Grid) -> (r: Grid)
    requires
        is_board(grid_rows(*a)),
        is_board(grid_rows(*b)),
    ensures
        is_3x3(grid_rows(r)),
        forall|i: int, j: int|
            0 <= i < 3 && 0 <= j < 3 ==> #[trigger] grid_rows(r)[i][j] == grid_rows(*a)[i][0]
                * grid_rows(*b)[0][j] + grid_rows(*a)[i][1] * grid_rows(*b)[1][j]
                + grid_rows(*a)[i][2] * grid_rows(*b)[2][j],
{
    Grid { cells: a.cells.dot(&b.cells) }
}

/// The absolute value of one element.
pub fn magnitude(x: i32) -> (r: i32)
    requires
        x != i32::MIN,
    ensures
        r == abs(x as int),
{
    if x < 0 {
        -x
    } else {
        x
    }
}

/// Relies on ndarray's `mapv`: a new array of the same shape holding
/// `magnitude` of each element.
#[verifier::external_body]
pub(crate) fn magnitudes(a: &Grid) -> (r: Grid)
    requires
        is_board(grid_rows(*a)),
    ensures
        is_3x3(grid_rows(r)),
        forall|i: int, j: int|
            0 <= i < 3 && 0 <= j < 3 ==> #[trigger] grid_rows(r)[i][j] == abs(
                grid_rows(*a)[i][j] as int,
            ),
{
    Grid { cells: a.cells.mapv(|x| magnitude(x)) }
}

/// Relies on ndarray's `sum`: the sum of every element.
#[verifier::external_body]
pub(crate) fn total(a: &Grid) -> (r: i32)
    requires
        is_board(grid_rows(*a)),
    ensures
        r == grid_total(grid_rows(*a)),
{
    a.cells.sum()
}

} // verus!
