//! The matrix product and the transpose.

use vstd::prelude::*;
use crate::element::Element;
use crate::grid::{lemma_cell_position, lemma_flat_index, Grid};
use crate::matrix::{Matrix, MatrixError};

verus! {

/// The matrix product of `src1` and `src2`, which must have as many rows as
/// `src1` has columns. Each cell is accumulated from zero, one product after
/// the other, along the row of `src1` from left to right.
pub fn mat_mul<T: Element>(src1: &Matrix<T>, src2: &Matrix<T>) -> (r: Result<
    Matrix<T>,
    MatrixError,
>)
    requires
        src1@.cols == src2@.rows ==> src1@.rows * src2@.cols <= usize::MAX,
    ensures
        src1@.cols == src2@.rows ==> r is Ok && r->Ok_0@ == src1@.matmul(src2@),
        src1@.cols != src2@.rows ==> r == Err::<Matrix<T>, MatrixError>(MatrixError::ShapeMismatch),
{
    let (rows, inner) = src1.shape();
    let (rows2, cols) = src2.shape();
    if inner != rows2 {
        return Err(MatrixError::ShapeMismatch);
    }
    let lhs = src1.cells();
    let rhs = src2.cells();
    let ghost a = src1@;
    let ghost b = src2@;
    let mut data: Vec<T> = Vec::with_capacity(rows * cols);
    let mut i: usize = 0;
    while i < rows
        invariant
            a == src1@,
            b == src2@,
            a.wf(),
            b.wf(),
            lhs@ == a.cells,
            rhs@ == b.cells,
            lhs.len() == rows * inner,
            rhs.len() == inner * cols,
            rows == a.rows,
            inner == a.cols,
            inner == b.rows,
            cols == b.cols,
            0 <= i <= rows,
            data@.len() == i * cols,
            forall|p: int|
                0 <= p < data@.len() ==> #[trigger] data@[p] == a.dot(
                    b,
                    p / (cols as int),
                    p % (cols as int),
                    inner as nat,
                ),
        decreases rows - i,
    {
        let mut j: usize = 0;
        while j < cols
            invariant
                a.wf(),
                b.wf(),
                lhs@ == a.cells,
                rhs@ == b.cells,
                lhs.len() == rows * inner,
                rhs.len() == inner * cols,
                rows == a.rows,
                inner == a.cols,
                inner == b.rows,
                cols == b.cols,
                0 <= i < rows,
                0 <= j <= cols,
                data@.len() == i * cols + j,
                forall|p: int|
                    0 <= p < data@.len() ==> #[trigger] data@[p] == a.dot(
                        b,
                        p / (cols as int),
                        p % (cols as int),
                        inner as nat,
                    ),
            decreases cols - j,
        {
            let mut sum: T = T::zero();
            let mut k: usize = 0;
            while k < inner
                invariant
                    a.wf(),
                    b.wf(),
                    lhs@ == a.cells,
                    rhs@ == b.cells,
                    lhs.len() == rows * inner,
                    rhs.len() == inner * cols,
                    rows == a.rows,
                    inner == a.cols,
                    inner == b.rows,
                    cols == b.cols,
                    0 <= i < rows,
                    0 <= j < cols,
                    0 <= k <= inner,
                    sum == a.dot(b, i as int, j as int, k as nat),
                decreases inner - k,
            {
                proof {
                    lemma_flat_index(i as int, k as int, rows as int, inner as int);
                    lemma_flat_index(k as int, j as int, inner as int, cols as int);
                }
                sum = sum.plus(lhs[i * inner + k].times(rhs[k * cols + j]));
                k += 1;
            }
            proof {
                lemma_flat_index(i as int, j as int, rows as int, cols as int);
            }
            data.push(sum);
            j += 1;
        }
        assert(i * cols + cols == (i + 1) * cols) by (nonlinear_arith);
        i += 1;
    }
    assert(data@ =~= a.matmul(b).cells);
    Ok(Matrix::from_parts((rows, cols), data))
}

/// The transpose: a matrix with as many rows as `src` has columns and as
/// many columns as `src` has rows, whose cell `(c, r)` is the cell `(r, c)`
/// of `src`.
pub fn transpose<T: Copy>(src: &Matrix<T>) -> (m: Matrix<T>)
    ensures
        m@ == src@.transposed(),
{
    let (rows, cols) = src.shape();
    let cells = src.cells();
    let ghost a = src@;
    let mut data: Vec<T> = Vec::with_capacity(cells.len());
    let mut c: usize = 0;
    while c < cols
        invariant
            a == src@,
            a.wf(),
            cells@ == a.cells,
            cells.len() == rows * cols,
            rows == a.rows,
            cols == a.cols,
            0 <= c <= cols,
            data@.len() == c * rows,
            forall|p: int|
                0 <= p < data@.len() ==> #[trigger] data@[p] == a.at(
                    p % (rows as int),
                    p / (rows as int),
                ),
        decreases cols - c,
    {
        let mut r: usize = 0;
        while r < rows
            invariant
                a.wf(),
                cells@ == a.cells,
                cells.len() == rows * cols,
            cells.len() == rows * cols,
                rows == a.rows,
                cols == a.cols,
                0 <= c < cols,
                0 <= r <= rows,
                data@.len() == c * rows + r,
                forall|p: int|
                    0 <= p < data@.len() ==> #[trigger] data@[p] == a.at(
                        p % (rows as int),
                        p / (rows as int),
                    ),
            decreases rows - r,
        {
            proof {
                lemma_flat_index(r as int, c as int, rows as int, cols as int);
                lemma_flat_index(c as int, r as int, cols as int, rows as int);
            }
            data.push(cells[r * cols + c]);
            r += 1;
        }
        assert(c * rows + rows == (c + 1) * rows) by (nonlinear_arith);
        c += 1;
    }
    assert(cols * rows == rows * cols) by (nonlinear_arith);
    assert(data@ =~= a.transposed().cells);
    Matrix::from_parts((cols, rows), data)
}

/// Transposing twice gives the grid back.
pub proof fn lemma_transpose_involution<T>(g: Grid<T>)
    requires
        g.wf(),
    ensures
        g.transposed().transposed() == g,
{
    let t = g.transposed();
    let tt = t.transposed();
    let rows = g.rows as int;
    let cols = g.cols as int;
    assert(cols * rows == rows * cols) by (nonlinear_arith);
    assert forall|i: int| 0 <= i < g.cells.len() implies tt.cells[i] == g.cells[i] by {
        lemma_cell_position(i, rows, cols);
        let r = i / cols;
        let c = i % cols;
        lemma_flat_index(c, r, cols, rows);
    }
    assert(tt.cells =~= g.cells);
}

} // verus!
