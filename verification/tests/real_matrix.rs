use dense_matrix::{mat_mul, transpose, Element, Matrix};

/// Single-precision floats as matrix elements: the model of each operation
/// is the operation itself.
#[derive(Clone, Copy, Debug, PartialEq)]
struct Real(f32);

impl Element for Real {
    fn zero_val() -> Real {
        Real(0.)
    }

    fn plus_spec(self, rhs: Real) -> Real {
        Real(self.0 + rhs.0)
    }

    fn minus_spec(self, rhs: Real) -> Real {
        Real(self.0 - rhs.0)
    }

    fn times_spec(self, rhs: Real) -> Real {
        Real(self.0 * rhs.0)
    }

    fn same_spec(self, rhs: Real) -> bool {
        self.0 == rhs.0
    }

    fn zero() -> Real {
        Real(0.)
    }

    fn plus(self, rhs: Real) -> Real {
        Real(self.0 + rhs.0)
    }

    fn minus(self, rhs: Real) -> Real {
        Real(self.0 - rhs.0)
    }

    fn times(self, rhs: Real) -> Real {
        Real(self.0 * rhs.0)
    }

    fn same(self, rhs: Real) -> bool {
        self.0 == rhs.0
    }
}

fn reals(cells: Vec<f32>) -> Vec<Real> {
    cells.into_iter().map(Real).collect()
}

fn from_rows(rows: Vec<Vec<f32>>) -> Matrix<Real> {
    let rows: Vec<Vec<Real>> = rows.into_iter().map(reals).collect();
    Matrix::new(&rows).unwrap()
}

fn from_flat(dim: (usize, usize), cells: Vec<f32>) -> Matrix<Real> {
    Matrix::from_flat(dim, reals(cells)).unwrap()
}

#[test]
fn test_mat_mul() {
    let matrix_1 = from_rows(vec![vec![1., 2., 3.], vec![4., 5., 6.]]);
    let matrix_2 = from_rows(vec![vec![1., 2.], vec![3., 4.], vec![5., 6.]]);

    assert_eq!(
        from_rows(vec![vec![22., 28.], vec![49., 64.]]),
        mat_mul(&matrix_1, &matrix_2).unwrap()
    );
}

#[test]
fn test_transpose() {
    let matrix = from_rows(vec![vec![1., 2., 3., 4., 5.], vec![6., 7., 8., 9., 10.]]);
    assert_eq!(
        from_rows(vec![vec![1., 6.], vec![2., 7.], vec![3., 8.], vec![4., 9.], vec![5., 10.]]),
        transpose(&matrix)
    );
}

#[test]
fn new() {
    let matrix = from_flat((2, 2), vec![1., 2., 3., 4.]);

    assert_eq!(from_rows(vec![vec![1., 2.], vec![3., 4.]]), matrix);
}

#[test]
fn with_zeros() {
    let matrix: Matrix<Real> = Matrix::with_zeros((4, 3));

    assert_eq!(from_flat((4, 3), vec![0.; 4 * 3]), matrix);
}

#[test]
fn mul() {
    let matrix_1 = from_flat((2, 2), vec![1., 2., 3., 4.]);
    let matrix_2 = from_flat((2, 2), vec![4., 3., 2., 1.]);
    let matrix_3 = matrix_1.multiply_elementwise(&matrix_2).unwrap();
    assert_eq!(from_flat((2, 2), vec![4., 6., 6., 4.]), matrix_3);
}

#[test]
fn single_mul() {
    let matrix = from_flat((2, 2), vec![1., 2., 3., 4.]);
    let matrix_mul = matrix.scale(Real(2.));
    assert_eq!(from_flat((2, 2), vec![2., 4., 6., 8.]), matrix_mul);
}

#[test]
fn add() {
    let matrix_1 = from_flat((2, 2), vec![1., 2., 3., 4.]);
    let matrix_2 = from_flat((2, 2), vec![4., 3., 2., 1.]);
    let matrix_3 = matrix_1.add(&matrix_2).unwrap();
    assert_eq!(from_flat((2, 2), vec![5., 5., 5., 5.]), matrix_3);
}

#[test]
fn single_add() {
    let matrix = from_flat((2, 2), vec![1., 2., 3., 4.]);
    let matrix_mul = matrix.add_scalar(Real(2.));
    assert_eq!(from_flat((2, 2), vec![3., 4., 5., 6.]), matrix_mul);
}

#[test]
fn sub() {
    let matrix_1 = from_flat((2, 2), vec![1., 2., 3., 4.]);
    let matrix_2 = from_flat((2, 2), vec![4., 3., 2., 1.]);
    let matrix_3 = matrix_1.subtract(&matrix_2).unwrap();
    assert_eq!(from_flat((2, 2), vec![-3., -1., 1., 3.]), matrix_3);
}

#[test]
fn single_sub() {
    let matrix = from_flat((2, 2), vec![1., 2., 3., 4.]);
    let matrix_mul = matrix.subtract_scalar(Real(2.));
    assert_eq!(from_flat((2, 2), vec![-1., 0., 1., 2.]), matrix_mul);
}

#[test]
fn real_equality_is_exact() {
    let a = from_flat((1, 2), vec![1. + f32::EPSILON, 1.]);
    let b = from_flat((1, 2), vec![1., 1.]);
    assert!(!a.equals(&b));
    assert!(a != b);
    assert!(a.equals(&a));
    assert!(a == a);
}

#[test]
fn real_nan_is_not_equal_to_itself() {
    let a = from_flat((1, 1), vec![f32::NAN]);
    assert!(!a.equals(&a));
}

#[test]
fn real_product_accumulates_left_to_right() {
    // 1e8 + 1 rounds to 1e8 in single precision, so the order of the
    // additions shows in the result: ((0 + 1e8) + 1) - 1e8 is 0.
    let row = from_flat((1, 3), vec![1e8, 1., -1e8]);
    let col = from_flat((3, 1), vec![1., 1., 1.]);
    let product = mat_mul(&row, &col).unwrap();
    assert_eq!(product.get(0, 0), Some(Real(0.)));
}

#[test]
fn real_cells_are_row_major() {
    let m = from_rows(vec![vec![1., 2., 3.], vec![4., 5., 6.]]);
    assert_eq!(m.shape(), (2, 3));
    assert_eq!(m.cells(), &reals(vec![1., 2., 3., 4., 5., 6.]));
    assert_eq!(m.get(1, 0), Some(Real(4.)));
}
