//! Fixed-size vectors (two, three and four components) and square matrices
//! (2x2, 3x3 and 4x4, row-major) over integer scalars whose arithmetic wraps
//! around on overflow.
//!
//! Every operation is stated over the integers each value stands for: a
//! result is the exact integer formula, wrapped once into the scalar kind.
pub mod number_traits;
pub mod sums;
pub mod vector;
pub mod matrix;
