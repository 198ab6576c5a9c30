//! State-space animation: smooth interpolation of an N-dimensional state
//! vector between a start and an end value over a fixed duration, shaped by
//! two control states through a cubic Bezier curve.
//!
//! All computation in this crate is exact: state components are `i64` scalars
//! (callers pick a fixed-point scale for fractional values), times are `i64`
//! millisecond counts, and the curve parameter is an exact ratio of two
//! integers. Sampling a curve therefore returns exact rational components,
//! and every operation carries a contract that pins its result down.

pub mod anim;
pub mod vector;
