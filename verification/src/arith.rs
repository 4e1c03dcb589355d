//! Cell-by-cell arithmetic: two matrices, or a matrix and one element.

use vstd::prelude::*;
use crate::element::{lemma_wrapping_plus_minus, Element};
use crate::grid::Grid;
use crate::matrix::{Matrix, MatrixError};

verus! {

impl<T: Element> Matrix<T> {
    /// The cell-by-cell sum. The operands are paired by their place in
    /// row-major order and must hold equally many cells; the result has the
    /// shape of `self`.
    pub fn add(&self, other: &Matrix<T>) -> (r: Result<Matrix<T>, MatrixError>)
        ensures
            self@.cells.len() == other@.cells.len() ==> r is Ok && r->Ok_0@ == self@.sum(other@),
            self@.cells.len() != other@.cells.len() ==> r == Err::<Matrix<T>, MatrixError>(
                MatrixError::ShapeMismatch,
            ),
    {
        let dim = self.shape();
        let lhs = self.cells();
        let rhs = other.cells();
        let n: usize = lhs.len();
        if rhs.len() != n {
            return Err(MatrixError::ShapeMismatch);
        }
        let mut data: Vec<T> = Vec::with_capacity(n);
        let mut i: usize = 0;
        while i < n
            invariant
                n == lhs@.len(),
                n == rhs@.len(),
                0 <= i <= n,
                data@.len() == i,
                forall|p: int| 0 <= p < i ==> data@[p] == lhs@[p].plus_spec(rhs@[p]),
            decreases n - i,
        {
            data.push(lhs[i].plus(rhs[i]));
            i += 1;
        }
        assert(data@ =~= self@.sum(other@).cells);
        Ok(Matrix::from_parts(dim, data))
    }

    /// The cell-by-cell difference, `self` less `other`. The operands are
    /// paired by their place in row-major order and must hold equally many
    /// cells; the result has the shape of `self`.
    pub fn subtract(&self, other: &Matrix<T>) -> (r: Result<Matrix<T>, MatrixError>)
        ensures
            self@.cells.len() == other@.cells.len() ==> r is Ok && r->Ok_0@ == self@.difference(
                other@,
            ),
            self@.cells.len() != other@.cells.len() ==> r == Err::<Matrix<T>, MatrixError>(
                MatrixError::ShapeMismatch,
            ),
    {
        let dim = self.shape();
        let lhs = self.cells();
        let rhs = other.cells();
        let n: usize = lhs.len();
        if rhs.len() != n {
            return Err(MatrixError::ShapeMismatch);
        }
        let mut data: Vec<T> = Vec::with_capacity(n);
        let mut i: usize = 0;
        while i < n
            invariant
                n == lhs@.len(),
                n == rhs@.len(),
                0 <= i <= n,
                data@.len() == i,
                forall|p: int| 0 <= p < i ==> data@[p] == lhs@[p].minus_spec(rhs@[p]),
            decreases n - i,
        {
            data.push(lhs[i].minus(rhs[i]));
            i += 1;
        }
        assert(data@ =~= self@.difference(other@).cells);
        Ok(Matrix::from_parts(dim, data))
    }

    /// The cell-by-cell product (not the matrix product). The operands are
    /// paired by their place in row-major order and must hold equally many
    /// cells; the result has the shape of `self`.
    pub fn multiply_elementwise(&self, other: &Matrix<T>) -> (r: Result<Matrix<T>, MatrixError>)
        ensures
            self@.cells.len() == other@.cells.len() ==> r is Ok && r->Ok_0@ == self@.hadamard(
                other@,
            ),
            self@.cells.len() != other@.cells.len() ==> r == Err::<Matrix<T>, MatrixError>(
                MatrixError::ShapeMismatch,
            ),
    {
        let dim = self.shape();
        let lhs = self.cells();
        let rhs = other.cells();
        let n: usize = lhs.len();
        if rhs.len() != n {
            return Err(MatrixError::ShapeMismatch);
        }
        let mut data: Vec<T> = Vec::with_capacity(n);
        let mut i: usize = 0;
        while i < n
            invariant
                n == lhs@.len(),
                n == rhs@.len(),
                0 <= i <= n,
                data@.len() == i,
                forall|p: int| 0 <= p < i ==> data@[p] == lhs@[p].times_spec(rhs@[p]),
            decreases n - i,
        {
            data.push(lhs[i].times(rhs[i]));
            i += 1;
        }
        assert(data@ =~= self@.hadamard(other@).cells);
        Ok(Matrix::from_parts(dim, data))
    }

    /// Every cell multiplied by `k`.
    pub fn scale(&self, k: T) -> (m: Matrix<T>)
        ensures
            m@ == self@.scaled(k),
    {
        let dim = self.shape();
        let src = self.cells();
        let n: usize = src.len();
        let mut data: Vec<T> = Vec::with_capacity(n);
        let mut i: usize = 0;
        while i < n
            invariant
                n == src@.len(),
                0 <= i <= n,
                data@.len() == i,
                forall|p: int| 0 <= p < i ==> data@[p] == src@[p].times_spec(k),
            decreases n - i,
        {
            data.push(src[i].times(k));
            i += 1;
        }
        assert(data@ =~= self@.scaled(k).cells);
        Matrix::from_parts(dim, data)
    }

    /// Every cell with `k` added.
    pub fn add_scalar(&self, k: T) -> (m: Matrix<T>)
        ensures
            m@ == self@.plus_scalar(k),
    {
        let dim = self.shape();
        let src = self.cells();
        let n: usize = src.len();
        let mut data: Vec<T> = Vec::with_capacity(n);
        let mut i: usize = 0;
        while i < n
            invariant
                n == src@.len(),
                0 <= i <= n,
                data@.len() == i,
                forall|p: int| 0 <= p < i ==> data@[p] == src@[p].plus_spec(k),
            decreases n - i,
        {
            data.push(src[i].plus(k));
            i += 1;
        }
        assert(data@ =~= self@.plus_scalar(k).cells);
        Matrix::from_parts(dim, data)
    }

    /// Every cell with `k` taken away.
    pub fn subtract_scalar(&self, k: T) -> (m: Matrix<T>)
        ensures
            m@ == self@.minus_scalar(k),
    {
        let dim = self.shape();
        let src = self.cells();
        let n: usize = src.len();
        let mut data: Vec<T> = Vec::with_capacity(n);
        let mut i: usize = 0;
        while i < n
            invariant
                n == src@.len(),
                0 <= i <= n,
                data@.len() == i,
                forall|p: int| 0 <= p < i ==> data@[p] == src@[p].minus_spec(k),
            decreases n - i,
        {
            data.push(src[i].minus(k));
            i += 1;
        }
        assert(data@ =~= self@.minus_scalar(k).cells);
        Matrix::from_parts(dim, data)
    }
}

/// Subtracting from a sum what was added gives the left operand back,
/// wherever the element arithmetic does so cell by cell.
pub proof fn lemma_subtract_undoes_add<T: Element>(a: Grid<T>, b: Grid<T>)
    requires
        a.cells.len() == b.cells.len(),
        forall|i: int|
            0 <= i < a.cells.len() ==> (#[trigger] a.cells[i]).plus_spec(b.cells[i]).minus_spec(
                b.cells[i],
            ) == a.cells[i],
    ensures
        a.sum(b).cells.len() == b.cells.len(),
        a.sum(b).difference(b) == a,
{
    assert(a.sum(b).difference(b).cells =~= a.cells);
}

/// On wrapping integers, subtracting from a sum what was added always gives
/// the left operand back.
pub proof fn lemma_subtract_undoes_add_wrapping(a: Grid<i64>, b: Grid<i64>)
    requires
        a.cells.len() == b.cells.len(),
    ensures
        a.sum(b).cells.len() == b.cells.len(),
        a.sum(b).difference(b) == a,
{
    assert forall|i: int| 0 <= i < a.cells.len() implies (#[trigger] a.cells[i]).plus_spec(
        b.cells[i],
    ).minus_spec(b.cells[i]) == a.cells[i] by {
        lemma_wrapping_plus_minus(a.cells[i], b.cells[i]);
    }
    lemma_subtract_undoes_add(a, b);
}

/// Adding an element to every cell is adding the matrix of the same shape
/// whose every cell is that element.
pub proof fn lemma_add_scalar_is_add_filled<T: Element>(a: Grid<T>, k: T)
    requires
        a.wf(),
    ensures
        Grid::filled(a.rows, a.cols, k).cells.len() == a.cells.len(),
        a.sum(Grid::filled(a.rows, a.cols, k)) == a.plus_scalar(k),
{
    assert(a.sum(Grid::filled(a.rows, a.cols, k)).cells =~= a.plus_scalar(k).cells);
}

} // verus!
