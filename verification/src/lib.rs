//! Dense row-major matrices over an abstract element type.
//!
//! The element arithmetic is supplied by the [`Element`] trait; everything
//! that concerns shapes, the row-major layout and the order in which element
//! operations are applied is stated over the [`Grid`] model and proved.

pub mod arith;
pub mod element;
pub mod equality;
pub mod grid;
pub mod math;
pub mod matrix;

pub use element::Element;
pub use grid::Grid;
pub use math::{mat_mul, transpose};
pub use matrix::{Matrix, MatrixError};
