//! Small fixed-size matrices and vectors over 64-bit integers, with exact
//! determinants, adjugate-based inverses and rigid-transform helpers.

pub mod algebra;
pub mod errors;
pub mod grid;
pub mod laws;
pub mod linear_algebra;
pub mod matrix2x2;
pub mod matrix3x3;
pub mod matrix4x4;
pub mod matrix5x5;
pub mod matrix6x6;
pub mod numeric;
pub mod transformations;
pub mod types;
pub mod utils;
pub mod vector2;
pub mod vector3;
pub mod vector4;
pub mod vector5;
pub mod vector6;
