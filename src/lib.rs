//! The verified core of a CPU ray tracer: hit selection and ordering of
//! intersections, the pixel canvas and its image encodings, and the
//! structure of the transform matrices.
//!
//! Floating-point arithmetic stays with the caller. A ray parameter `t`
//! crosses into this crate as the bit pattern of its binary64 value, and
//! all comparisons of `t` are made here, on that pattern.

pub mod canvas;
pub mod distance;
pub mod image;
pub mod intersection;
pub mod matrix;
