//! Evaluation of freeform parametric curves and surfaces: Bézier, B-spline and
//! NURBS geometry from control points, knot vectors and a parameter value.
//!
//! The arithmetic is written against the [`Real`] scalar interface, so every
//! result is stated as an exact expression over the scalar's own operations.
//! What those expressions amount to where the scalar does not round is
//! proved in [`exact`], for every result that the scalar can hold;
//! [`Fraction`] is such a scalar.
pub mod basics;
pub mod basis_function;
pub mod curve;
pub mod exact;
pub mod fraction;
pub mod scalar;
pub mod surface;

pub use fraction::Fraction;
pub use scalar::Real;
