//! B-spline curves.
use vstd::prelude::*;

use crate::basics::point::ControlPoint;
use crate::basis_function::bspline_basis::uniform_knots;
use crate::basis_function::{Basis, BsplineBasis, Knots};
use crate::curve::{well_formed, NonRationalCurve, ParametricCurve};
use crate::scalar::{Real, MAX_EXACT_COUNT};

verus! {

/// A B-spline curve: a B-spline basis and its control points.
pub struct BsplineCurveBase<R: Real, P: ControlPoint<R>> {
    basis_function: BsplineBasis<R>,
    control_points: Vec<P>,
}

impl<R: Real, P: ControlPoint<R>> BsplineCurveBase<R, P> {
    /// The curve of the given degree over the given knots; nothing is
    /// checked.
    pub fn new(control_points: Vec<P>, knots: Vec<R>, degree: usize) -> (curve: Self)
        ensures
            curve.control_points_spec() == control_points@,
            curve.basis_function_spec().knots_spec() == knots@,
            curve.basis_function_spec().degree_spec() == degree,
    {
        Self { basis_function: BsplineBasis::new(degree, Knots::new(knots)), control_points }
    }

    /// The curve of the given degree over the uniform clamped knot vector.
    /// There must be at least `degree + 1` control points.
    pub fn new_uniform(control_points: Vec<P>, degree: usize) -> (curve: Self)
        requires
            degree < control_points@.len(),
            control_points@.len() + degree + 1 <= usize::MAX,
        ensures
            curve.control_points_spec() == control_points@,
            curve.basis_function_spec().knots_spec() == uniform_knots::<R>(
                degree,
                control_points@.len() as usize,
            ),
            curve.basis_function_spec().degree_spec() == degree,
            control_points@.len() - degree <= MAX_EXACT_COUNT ==> well_formed(&curve),
    {
        let basis_function = BsplineBasis::new_uniform(degree, control_points.len()).unwrap();
        Self { basis_function, control_points }
    }
}

impl<R: Real, P: ControlPoint<R>> ParametricCurve<R, P> for BsplineCurveBase<R, P> {
    type BasisFunction = BsplineBasis<R>;

    closed spec fn basis_function_spec(&self) -> BsplineBasis<R> {
        self.basis_function
    }

    closed spec fn control_points_spec(&self) -> Seq<P> {
        self.control_points@
    }

    fn basis_function(&self) -> &BsplineBasis<R> {
        &self.basis_function
    }

    fn control_points(&self) -> &Vec<P> {
        &self.control_points
    }
}

impl<R: Real, P: ControlPoint<R>> NonRationalCurve<R, P> for BsplineCurveBase<R, P> {

}

} // verus!
