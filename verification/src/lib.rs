//! A small dense matrix: construction, row and column extraction, minors,
//! sum, product, determinant by cofactor expansion, and a text rendering.
//!
//! The element type is a parameter. Its arithmetic comes from the standard
//! operator traits, and every contract speaks of an operation through what
//! that operation itself promises of its result.

pub mod error;
pub mod scalar;
pub mod grid;
pub mod algebra;
pub mod matrix;
pub mod ops;
pub mod text;
pub mod laws;
