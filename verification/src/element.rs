//! The arithmetic a matrix needs from its elements.

use vstd::prelude::*;

verus! {

/// An element type with a zero, the three binary operations that the matrix
/// operations apply cell by cell, and an equality test.
///
/// Each executable method is tied to a spec function of the same arguments,
/// so that a matrix contract can say which element ends up in which cell
/// without fixing what the arithmetic is.
pub trait Element: Copy {
    /// The additive zero that fills a fresh matrix and starts a dot product.
    spec fn zero_val() -> Self;

    /// The element `self + rhs`.
    spec fn plus_spec(self, rhs: Self) -> Self;

    /// The element `self - rhs`.
    spec fn minus_spec(self, rhs: Self) -> Self;

    /// The element `self * rhs`.
    spec fn times_spec(self, rhs: Self) -> Self;

    /// Whether the equality test takes `self` and `rhs` for equal.
    spec fn same_spec(self, rhs: Self) -> bool;

    fn zero() -> (r: Self)
        ensures
            r == Self::zero_val(),
    ;

    fn plus(self, rhs: Self) -> (r: Self)
        ensures
            r == self.plus_spec(rhs),
    ;

    fn minus(self, rhs: Self) -> (r: Self)
        ensures
            r == self.minus_spec(rhs),
    ;

    fn times(self, rhs: Self) -> (r: Self)
        ensures
            r == self.times_spec(rhs),
    ;

    fn same(self, rhs: Self) -> (r: bool)
        ensures
            r == self.same_spec(rhs),
    ;
}

/// Two's-complement integers: every operation wraps around, so none of them
/// can fail and addition and subtraction undo each other exactly.
impl Element for i64 {
    open spec fn zero_val() -> i64 {
        0i64
    }

    open spec fn plus_spec(self, rhs: i64) -> i64 {
        vstd::wrapping::i64_specs::wrapping_add(self, rhs)
    }

    open spec fn minus_spec(self, rhs: i64) -> i64 {
        vstd::wrapping::i64_specs::wrapping_sub(self, rhs)
    }

    open spec fn times_spec(self, rhs: i64) -> i64 {
        vstd::wrapping::i64_specs::wrapping_mul(self, rhs)
    }

    open spec fn same_spec(self, rhs: i64) -> bool {
        self == rhs
    }

    fn zero() -> (r: i64) {
        0i64
    }

    fn plus(self, rhs: i64) -> (r: i64) {
        self.wrapping_add(rhs)
    }

    fn minus(self, rhs: i64) -> (r: i64) {
        self.wrapping_sub(rhs)
    }

    fn times(self, rhs: i64) -> (r: i64) {
        self.wrapping_mul(rhs)
    }

    fn same(self, rhs: i64) -> (r: bool) {
        self == rhs
    }
}

/// On wrapping integers, subtracting what was added gives back the start.
pub proof fn lemma_wrapping_plus_minus(x: i64, y: i64)
    ensures
        x.plus_spec(y).minus_spec(y) == x,
{
}

} // verus!
