//! Geometric shapes (rectangle, circle, right triangle) with integer
//! measures, comparisons keyed on those measures, and constructors that
//! read a shape from comma-separated text.

pub mod arith;
pub mod text;
pub mod shape;
pub mod rect;
pub mod circle;
pub mod triangle;
pub mod labels;
