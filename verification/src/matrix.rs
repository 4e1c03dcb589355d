//! The matrix type, how one is built and how it is read.

use vstd::prelude::*;
use crate::element::Element;
use crate::grid::{lemma_flat_index, Grid};

verus! {

/// Why an operation refused its operands.
#[derive(Debug, Clone, Copy, PartialEq, Eq, Structural)]
pub enum MatrixError {
    /// The operands' shapes do not permit the operation.
    ShapeMismatch,
    /// The rows given are no rectangle, or the cells do not fill the shape.
    InvalidConstruction,
}

/// A dense matrix: a shape `(rows, cols)` and its cells in row-major order,
/// so that the cell `(r, c)` is stored at `r * cols + c`.
///
/// A matrix is never changed once built; every operation returns a new one.
#[derive(Debug)]
pub struct Matrix<T> {
    dim: (usize, usize),
    data: Vec<T>,
}

impl<T> View for Matrix<T> {
    type V = Grid<T>;

    closed spec fn view(&self) -> Grid<T> {
        Grid { rows: self.dim.0 as nat, cols: self.dim.1 as nat, cells: self.data@ }
    }
}

/// The rows of a nested vector, each as a sequence.
pub open spec fn rows_of<T>(rows: &Vec<Vec<T>>) -> Seq<Seq<T>> {
    Seq::new(rows@.len(), |i: int| rows@[i]@)
}

impl<T> Matrix<T> {
    #[verifier::type_invariant]
    spec fn filled_exactly(self) -> bool {
        self.data.len() == self.dim.0 * self.dim.1
    }

    /// Builds the matrix of the given shape from its cells in row-major order.
    pub(crate) fn from_parts(dim: (usize, usize), data: Vec<T>) -> (m: Matrix<T>)
        requires
            data@.len() == dim.0 * dim.1,
        ensures
            m@ == (Grid { rows: dim.0 as nat, cols: dim.1 as nat, cells: data@ }),
    {
        Matrix { dim, data }
    }

    /// Builds the matrix of the given shape from its cells in row-major
    /// order, or refuses cells that do not fill the shape.
    pub fn from_flat(dim: (usize, usize), data: Vec<T>) -> (r: Result<Matrix<T>, MatrixError>)
        ensures
            data@.len() == dim.0 * dim.1 ==> r is Ok && r->Ok_0@ == (Grid {
                rows: dim.0 as nat,
                cols: dim.1 as nat,
                cells: data@,
            }),
            data@.len() != dim.0 * dim.1 ==> r == Err::<Matrix<T>, MatrixError>(
                MatrixError::InvalidConstruction,
            ),
    {
        let len: usize = data.len();
        match dim.0.checked_mul(dim.1) {
            Some(n) => {
                if n == len {
                    Ok(Matrix { dim, data })
                } else {
                    Err(MatrixError::InvalidConstruction)
                }
            },
            None => Err(MatrixError::InvalidConstruction),
        }
    }

    /// The shape `(rows, cols)`. The cells of a matrix always fill its shape.
    pub fn shape(&self) -> (s: (usize, usize))
        ensures
            s.0 == self@.rows,
            s.1 == self@.cols,
            self@.wf(),
    {
        proof {
            use_type_invariant(self);
        }
        self.dim
    }

    /// The cells in row-major order.
    pub fn cells(&self) -> (v: &Vec<T>)
        ensures
            v@ == self@.cells,
            self@.wf(),
    {
        proof {
            use_type_invariant(self);
        }
        &self.data
    }
}

impl<T: Copy> Matrix<T> {
    /// Builds a matrix from its rows: as many rows as `rows` holds, as many
    /// columns as the first row is long, the cells row after row. An empty
    /// list of rows, or a row that is not as long as the first, is refused.
    pub fn new(rows: &Vec<Vec<T>>) -> (r: Result<Matrix<T>, MatrixError>)
        ensures
            Grid::rectangular(rows_of(rows)) ==> r is Ok && r->Ok_0@ == Grid::from_rows(
                rows_of(rows),
            ),
            !Grid::rectangular(rows_of(rows)) ==> r == Err::<Matrix<T>, MatrixError>(
                MatrixError::InvalidConstruction,
            ),
    {
        let n: usize = rows.len();
        if n == 0 {
            return Err(MatrixError::InvalidConstruction);
        }
        let width: usize = rows[0].len();
        let ghost rv = rows_of(rows);
        let mut data: Vec<T> = Vec::new();
        let mut i: usize = 0;
        while i < n
            invariant
                n == rows@.len(),
                n > 0,
                rv == rows_of(rows),
                width == rv[0].len(),
                0 <= i <= n,
                forall|k: int| 0 <= k < i ==> (#[trigger] rv[k]).len() == width,
                data@.len() == i * width,
                forall|p: int|
                    0 <= p < data@.len() ==> #[trigger] data@[p] == rv[p / (width as int)][p % (
                    width as int)],
            decreases n - i,
        {
            let row = &rows[i];
            assert(row@ == rv[i as int]);
            if row.len() != width {
                return Err(MatrixError::InvalidConstruction);
            }
            let mut j: usize = 0;
            while j < width
                invariant
                    0 <= i < n,
                    0 <= j <= width,
                    row@ == rv[i as int],
                    row@.len() == width,
                    data@.len() == i * width + j,
                    forall|p: int|
                        0 <= p < data@.len() ==> #[trigger] data@[p] == rv[p / (width as int)][p
                            % (width as int)],
                decreases width - j,
            {
                proof {
                    lemma_flat_index(i as int, j as int, n as int, width as int);
                }
                data.push(row[j]);
                j += 1;
            }
            assert(i * width + width == (i + 1) * width) by (nonlinear_arith);
            i += 1;
        }
        let m = Matrix { dim: (n, width), data };
        assert(m@.cells =~= Grid::from_rows(rv).cells);
        Ok(m)
    }

    /// The cell in row `r` and column `c`, if the matrix has one there.
    pub fn get(&self, r: usize, c: usize) -> (cell: Option<T>)
        ensures
            r < self@.rows && c < self@.cols ==> cell == Some(self@.at(r as int, c as int)),
            !(r < self@.rows && c < self@.cols) ==> cell.is_none(),
            self@.wf(),
    {
        proof {
            use_type_invariant(self);
        }
        if r < self.dim.0 && c < self.dim.1 {
            proof {
                lemma_flat_index(r as int, c as int, self.dim.0 as int, self.dim.1 as int);
            }
            Some(self.data[r * self.dim.1 + c])
        } else {
            None
        }
    }
}

impl<T: Element> Matrix<T> {
    /// The matrix of the given shape whose every cell is zero. A shape
    /// without rows or without columns is allowed and has no cells.
    pub fn with_zeros(shape: (usize, usize)) -> (m: Matrix<T>)
        requires
            shape.0 * shape.1 <= usize::MAX,
        ensures
            m@ == Grid::filled(shape.0 as nat, shape.1 as nat, T::zero_val()),
            m@.rows == shape.0,
            m@.cols == shape.1,
            m@.wf(),
            forall|i: int| 0 <= i < m@.cells.len() ==> m@.cells[i] == T::zero_val(),
    {
        let n: usize = shape.0 * shape.1;
        let mut data: Vec<T> = Vec::with_capacity(n);
        let mut i: usize = 0;
        while i < n
            invariant
                0 <= i <= n,
                data@.len() == i,
                forall|p: int| 0 <= p < i ==> data@[p] == T::zero_val(),
            decreases n - i,
        {
            data.push(T::zero());
            i += 1;
        }
        let m = Matrix { dim: shape, data };
        assert(m@.cells =~= Grid::filled(shape.0 as nat, shape.1 as nat, T::zero_val()).cells);
        m
    }

    /// Whether two matrices have the same shape and, cell by cell in order,
    /// elements that the element type takes for equal.
    pub fn equals(&self, other: &Matrix<T>) -> (r: bool)
        ensures
            r == self@.same(other@),
    {
        proof {
            use_type_invariant(self);
            use_type_invariant(other);
        }
        if self.dim.0 != other.dim.0 || self.dim.1 != other.dim.1 {
            return false;
        }
        let n: usize = self.data.len();
        let mut i: usize = 0;
        while i < n
            invariant
                n == self.data@.len(),
                n == other.data@.len(),
                0 <= i <= n,
                forall|p: int| 0 <= p < i ==> (#[trigger] self.data@[p]).same_spec(other.data@[p]),
            decreases n - i,
        {
            if !self.data[i].same(other.data[i]) {
                return false;
            }
            i += 1;
        }
        true
    }
}

} // verus!
