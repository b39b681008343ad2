//! A small path tracer over saturating fixed-point arithmetic.
//!
//! Every number is a multiple of 2^-16 held in an integer, so each operation
//! has an exact mathematical description and the whole pipeline, from the
//! vector algebra to the recursive colour integrator, is verified.

pub mod arith;
pub mod camera;
pub mod material;
pub mod random;
pub mod ray;
pub mod render;
pub mod scalar;
