//! Linear algebra over fixed-point scalars.

pub mod matrix;
pub mod vector;
