//! The integer box matrix handed to the pairwise overlap computation.
//!
//! The matrix itself is an `ndarray` array. What the verified code knows of
//! it is the grid of its cells, read through the few operations below.

use vstd::prelude::*;

verus! {

/// An integer matrix backed by an `ndarray` array. Its storage is not
/// visible to the verifier; `matrix_cells` names what it holds.
#[verifier::external_body]
pub struct BoxMatrix {
    cells: ndarray::Array2<i32>,
}

/// The cells of a matrix, one inner sequence per row.
pub uninterp spec fn matrix_cells(m: BoxMatrix) -> Seq<Seq<int>>;

/// Row-major data cut into `rows` rows of `cols` cells.
pub open spec fn row_major(data: Seq<i32>, rows: nat, cols: nat) -> Seq<Seq<int>> {
    Seq::new(rows, |i: int| Seq::new(cols, |j: int| data[i * cols + j] as int))
}

/// Calls `ndarray::Array2::from_shape_vec` with the shape `(rows, cols)`.
/// Trusted: a shape that accounts for exactly the elements given, with no
/// zero axis or with both axes zero, is accepted, and the array then holds the
/// data in row-major order. Other shapes are left out, since ndarray may
/// refuse them.
#[verifier::external_body]
fn matrix_from_vec(rows: usize, cols: usize, data: Vec<i32>) -> (m: BoxMatrix)
    requires
        rows * cols == data.len(),
        (rows == 0) == (cols == 0),
    ensures
        matrix_cells(m) == row_major(data@, rows as nat, cols as nat),
{
    BoxMatrix { cells: ndarray::Array2::from_shape_vec((rows, cols), data).unwrap() }
}

/// Calls `ndarray::ArrayBase::dim` on a two-dimensional array. Trusted: the
/// pair is the number of rows and the length of every row.
#[verifier::external_body]
pub(crate) fn matrix_dim(m: &BoxMatrix) -> (d: (usize, usize))
    ensures
        d.0 == matrix_cells(*m).len(),
        forall|i: int| 0 <= i < d.0 ==> (#[trigger] matrix_cells(*m)[i]).len() == d.1,
{
    m.cells.dim()
}

/// Indexes a two-dimensional `ndarray` array with `[[row, col]]`. Trusted: the
/// value is the cell at that row and column. The index must be in bounds,
/// since ndarray panics otherwise.
#[verifier::external_body]
pub(crate) fn matrix_get(m: &BoxMatrix, row: usize, col: usize) -> (v: i32)
    requires
        row < matrix_cells(*m).len(),
        col < matrix_cells(*m)[row as int].len(),
    ensures
        v == matrix_cells(*m)[row as int][col as int],
{
    m.cells[[row, col]]
}

/// The grid a list of `[x1, y1, x2, y2]` boxes turns into: one row of four
/// cells per box, in order.
pub open spec fn box_rows(boxes: Seq<[i32; 4]>) -> Seq<Seq<int>> {
    Seq::new(boxes.len(), |i: int| Seq::new(4, |j: int| boxes[i][j] as int))
}

/// Packs `[x1, y1, x2, y2]` boxes into an `N x 4` matrix, row `i` holding box
/// `i`. No boxes give the `0 x 0` matrix.
pub fn bboxes_to_ndarray(arr_b_boxes: Vec<[i32; 4]>) -> (m: BoxMatrix)
    ensures
        matrix_cells(m) == box_rows(arr_b_boxes@),
{
    let nrows = arr_b_boxes.len();
    let ncols: usize = if nrows == 0 {
        0
    } else {
        4
    };
    let mut data: Vec<i32> = Vec::new();
    for i in 0..nrows
        invariant
            nrows == arr_b_boxes.len(),
            data.len() == 4 * i,
            forall|k: int, j: int|
                0 <= k < i && 0 <= j < 4 ==> data[4 * k + j] == #[trigger] arr_b_boxes[k][j],
    {
        let b = &arr_b_boxes[i];
        data.push(b[0]);
        data.push(b[1]);
        data.push(b[2]);
        data.push(b[3]);
    }
    let ghost flat = data@;
    let m = matrix_from_vec(nrows, ncols, data);
    proof {
        let want = box_rows(arr_b_boxes@);
        let got = row_major(flat, nrows as nat, ncols as nat);
        assert forall|i: int| 0 <= i < nrows implies #[trigger] got[i] =~= want[i] by {
            assert forall|j: int| 0 <= j < 4 implies got[i][j] == want[i][j] by {
                assert(flat[4 * i + j] == arr_b_boxes[i][j]);
            }
        }
        assert(got =~= want);
    }
    m
}

} // verus!
