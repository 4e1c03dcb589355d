//! `==` on matrices.

use vstd::prelude::*;
use vstd::std_specs::cmp::PartialEqSpecImpl;
use crate::element::Element;
use crate::matrix::Matrix;

verus! {

/// Two matrices are `==` when they have the same shape and, cell by cell in
/// order, elements that the element type takes for equal.
impl<T: Element> PartialEq for Matrix<T> {
    fn eq(&self, other: &Matrix<T>) -> (r: bool) {
        self.equals(other)
    }
}

impl<T: Element> PartialEqSpecImpl for Matrix<T> {
    open spec fn obeys_eq_spec() -> bool {
        true
    }

    open spec fn eq_spec(&self, other: &Matrix<T>) -> bool {
        self@.same(other@)
    }
}

} // verus!
