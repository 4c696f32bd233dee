//! Bézier curves.
use vstd::prelude::*;

use crate::basics::algorithm::{blend, de_casteljaul};
use crate::basics::point::ControlPoint;
use crate::basis_function::bernstein_basis::bernstein_knots;
use crate::basis_function::{Basis, BernsteinBasis};
use crate::curve::{well_formed, NonRationalCurve, ParametricCurve};
use crate::scalar::Real;

verus! {

/// A Bézier curve: the Bernstein basis of degree `n - 1` and its `n`
/// control points.
pub struct AbstructBezier<R: Real, P: ControlPoint<R>> {
    basis_function: BernsteinBasis<R>,
    control_points: Vec<P>,
}

impl<R: Real, P: ControlPoint<R>> AbstructBezier<R, P> {
    /// The Bézier curve of the given control points.
    pub fn new(control_points: Vec<P>) -> (curve: Self)
        requires
            2 * control_points@.len() <= usize::MAX,
        ensures
            curve.control_points_spec() == control_points@,
            curve.basis_function_spec().degree_spec() == (if control_points@.len() == 0 {
                0
            } else {
                control_points@.len() - 1
            }),
            curve.basis_function_spec().knots_spec() == bernstein_knots::<R>(
                if control_points@.len() == 0 {
                    1
                } else {
                    control_points@.len() as usize
                },
            ),
            control_points@.len() > 0 ==> well_formed(&curve),
    {
        Self { basis_function: BernsteinBasis::new(control_points.len()), control_points }
    }

    /// The point of the curve at `u` by the de Casteljau scheme: the control
    /// points are blended pairwise, as many times as the degree.
    pub fn get_point(&self, u: R) -> (point: P)
        requires
            self.basis_function_spec().degree_spec() < self.control_points_spec().len(),
        ensures
            point == blend(
                self.control_points_spec(),
                u,
                self.basis_function_spec().degree_spec(),
                0,
            ),
    {
        de_casteljaul(self.degree(), u, &self.control_points)
    }
}

impl<R: Real, P: ControlPoint<R>> ParametricCurve<R, P> for AbstructBezier<R, P> {
    type BasisFunction = BernsteinBasis<R>;

    closed spec fn basis_function_spec(&self) -> BernsteinBasis<R> {
        self.basis_function
    }

    closed spec fn control_points_spec(&self) -> Seq<P> {
        self.control_points@
    }

    fn basis_function(&self) -> &BernsteinBasis<R> {
        &self.basis_function
    }

    fn control_points(&self) -> &Vec<P> {
        &self.control_points
    }
}

impl<R: Real, P: ControlPoint<R>> NonRationalCurve<R, P> for AbstructBezier<R, P> {

}

} // verus!
