//! The mathematical model of a matrix: a shape and its cells in row-major order.

use vstd::prelude::*;
use crate::element::Element;

verus! {

/// A shape together with the cells it lays out, row after row.
pub struct Grid<T> {
    pub rows: nat,
    pub cols: nat,
    pub cells: Seq<T>,
}

impl<T> Grid<T> {
    /// The cells fill the shape exactly.
    pub open spec fn wf(self) -> bool {
        self.cells.len() == self.rows * self.cols
    }

    /// The cell in row `r` and column `c`.
    pub open spec fn at(self, r: int, c: int) -> T
        recommends
            0 <= r < self.rows,
            0 <= c < self.cols,
    {
        self.cells[r * self.cols + c]
    }

    /// The grid of the given shape whose every cell is `v`.
    pub open spec fn filled(rows: nat, cols: nat, v: T) -> Grid<T> {
        Grid { rows, cols, cells: Seq::new(rows * cols, |i: int| v) }
    }

    /// There is at least one row, and every row is as long as the first.
    pub open spec fn rectangular(rows: Seq<Seq<T>>) -> bool {
        &&& rows.len() > 0
        &&& forall|i: int| 0 <= i < rows.len() ==> (#[trigger] rows[i]).len() == rows[0].len()
    }

    /// The grid whose rows are the given sequences, all as long as the first.
    pub open spec fn from_rows(rows: Seq<Seq<T>>) -> Grid<T>
        recommends
            rows.len() > 0,
    {
        let width = rows[0].len();
        Grid {
            rows: rows.len(),
            cols: width,
            cells: Seq::new(rows.len() * width, |i: int| rows[i / (width as int)][i % (width as int)]),
        }
    }

    /// The grid with rows and columns exchanged: its cell `(c, r)` is the
    /// cell `(r, c)` of `self`.
    pub open spec fn transposed(self) -> Grid<T> {
        Grid {
            rows: self.cols,
            cols: self.rows,
            cells: Seq::new(
                self.cols * self.rows,
                |i: int| self.at(i % (self.rows as int), i / (self.rows as int)),
            ),
        }
    }
}

/// On integers the equality test is equality, so two grids pass for the
/// same exactly when they are equal.
pub proof fn lemma_same_integers_are_equal(a: Grid<i64>, b: Grid<i64>)
    ensures
        a.same(b) <==> a == b,
{
    if a.same(b) {
        assert(a.cells =~= b.cells);
    }
}

/// Where the cell `(r, c)` of a `rows` by `cols` grid lies in row-major
/// order, and that the place gives the row and the column back.
pub proof fn lemma_flat_index(r: int, c: int, rows: int, cols: int)
    requires
        0 <= r < rows,
        0 <= c < cols,
    ensures
        0 <= r * cols + c < rows * cols,
        (r * cols + c) / cols == r,
        (r * cols + c) % cols == c,
{
    assert(0 <= r * cols + c < rows * cols) by (nonlinear_arith)
        requires
            0 <= r < rows,
            0 <= c < cols,
    ;
    vstd::arithmetic::div_mod::lemma_fundamental_div_mod_converse(r * cols + c, cols, r, c);
}

/// The row and the column of the `i`-th cell in row-major order.
pub proof fn lemma_cell_position(i: int, rows: int, cols: int)
    requires
        0 <= i < rows * cols,
        0 <= rows,
        0 <= cols,
    ensures
        cols > 0,
        0 <= i / cols < rows,
        0 <= i % cols < cols,
        (i / cols) * cols + i % cols == i,
{
    assert(cols > 0) by (nonlinear_arith)
        requires
            0 <= i < rows * cols,
            0 <= rows,
            0 <= cols,
    ;
    vstd::arithmetic::div_mod::lemma_fundamental_div_mod(i, cols);
    assert(0 <= i % cols < cols);
    assert(0 <= i / cols < rows) by (nonlinear_arith)
        requires
            0 <= i < rows * cols,
            cols > 0,
            i == cols * (i / cols) + (i % cols),
            0 <= i % cols < cols,
    ;
    assert((i / cols) * cols == cols * (i / cols)) by (nonlinear_arith);
}

impl<T: Element> Grid<T> {
    /// The two grids have the same shape and, cell by cell in order,
    /// elements that the element type takes for equal.
    pub open spec fn same(self, other: Grid<T>) -> bool {
        &&& self.rows == other.rows
        &&& self.cols == other.cols
        &&& self.cells.len() == other.cells.len()
        &&& forall|i: int|
            0 <= i < self.cells.len() ==> (#[trigger] self.cells[i]).same_spec(other.cells[i])
    }

    /// The shape of `self`, each cell the sum of the two cells at its place.
    pub open spec fn sum(self, other: Grid<T>) -> Grid<T> {
        Grid {
            rows: self.rows,
            cols: self.cols,
            cells: Seq::new(self.cells.len(), |i: int| self.cells[i].plus_spec(other.cells[i])),
        }
    }

    /// The shape of `self`, each cell that of `self` less that of `other`.
    pub open spec fn difference(self, other: Grid<T>) -> Grid<T> {
        Grid {
            rows: self.rows,
            cols: self.cols,
            cells: Seq::new(self.cells.len(), |i: int| self.cells[i].minus_spec(other.cells[i])),
        }
    }

    /// The shape of `self`, each cell the product of the two cells at its
    /// place.
    pub open spec fn hadamard(self, other: Grid<T>) -> Grid<T> {
        Grid {
            rows: self.rows,
            cols: self.cols,
            cells: Seq::new(self.cells.len(), |i: int| self.cells[i].times_spec(other.cells[i])),
        }
    }

    /// Every cell multiplied by `k`, on the right.
    pub open spec fn scaled(self, k: T) -> Grid<T> {
        Grid {
            rows: self.rows,
            cols: self.cols,
            cells: Seq::new(self.cells.len(), |i: int| self.cells[i].times_spec(k)),
        }
    }

    /// Every cell with `k` added.
    pub open spec fn plus_scalar(self, k: T) -> Grid<T> {
        Grid {
            rows: self.rows,
            cols: self.cols,
            cells: Seq::new(self.cells.len(), |i: int| self.cells[i].plus_spec(k)),
        }
    }

    /// Every cell with `k` taken away.
    pub open spec fn minus_scalar(self, k: T) -> Grid<T> {
        Grid {
            rows: self.rows,
            cols: self.cols,
            cells: Seq::new(self.cells.len(), |i: int| self.cells[i].minus_spec(k)),
        }
    }

    /// Row `i` of `self` times column `j` of `other`, over their first `n`
    /// places: starting from zero, the products are added one after the
    /// other, from place 0 upwards.
    pub open spec fn dot(self, other: Grid<T>, i: int, j: int, n: nat) -> T
        decreases n,
    {
        if n == 0 {
            T::zero_val()
        } else {
            self.dot(other, i, j, (n - 1) as nat).plus_spec(
                self.at(i, n - 1).times_spec(other.at(n - 1, j)),
            )
        }
    }

    /// The matrix product: as many rows as `self`, as many columns as
    /// `other`, the cell `(i, j)` the dot product of row `i` of `self` and
    /// column `j` of `other`.
    pub open spec fn matmul(self, other: Grid<T>) -> Grid<T>
        recommends
            self.cols == other.rows,
    {
        Grid {
            rows: self.rows,
            cols: other.cols,
            cells: Seq::new(
                self.rows * other.cols,
                |p: int|
                    self.dot(other, p / (other.cols as int), p % (other.cols as int), self.cols),
            ),
        }
    }
}

/// The grid built from rows fills its shape, and its cell `(r, c)` is the
/// `c`-th element of the `r`-th row.
pub proof fn lemma_from_rows_at<T>(rows: Seq<Seq<T>>, r: int, c: int)
    requires
        Grid::rectangular(rows),
        0 <= r < rows.len(),
        0 <= c < rows[0].len(),
    ensures
        Grid::from_rows(rows).wf(),
        Grid::from_rows(rows).at(r, c) == rows[r][c],
{
    lemma_flat_index(r, c, rows.len() as int, rows[0].len() as int);
}

/// The cell `(c, r)` of the transposed grid is the cell `(r, c)` of the grid.
pub proof fn lemma_transposed_at<T>(g: Grid<T>, r: int, c: int)
    requires
        0 <= r < g.rows,
        0 <= c < g.cols,
    ensures
        g.transposed().at(c, r) == g.at(r, c),
{
    lemma_flat_index(c, r, g.cols as int, g.rows as int);
}

/// The cell `(i, j)` of the matrix product is the dot product of row `i` of
/// the left grid and column `j` of the right grid.
pub proof fn lemma_matmul_at<T: Element>(a: Grid<T>, b: Grid<T>, i: int, j: int)
    requires
        0 <= i < a.rows,
        0 <= j < b.cols,
    ensures
        a.matmul(b).at(i, j) == a.dot(b, i, j, a.cols),
{
    lemma_flat_index(i, j, a.rows as int, b.cols as int);
}

} // verus!
