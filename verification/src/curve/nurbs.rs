//! Rational B-spline curves.
use vstd::prelude::*;

use crate::basics::point::{ControlPoint, HomoControlPoint};
use crate::basis_function::{Basis, BsplineBasis, Knots};
use crate::curve::{ParametricCurve, RationalCurve};
use crate::scalar::Real;

verus! {

/// A NURBS curve: a B-spline basis and homogeneous control points.
pub struct NurbsCurveBase<R: Real, P: ControlPoint<R>> {
    basis_function: BsplineBasis<R>,
    control_points: Vec<HomoControlPoint<R, P>>,
}

/// The homogeneous forms of a sequence of points with their weights.
pub open spec fn homogeneous<R: Real, P: ControlPoint<R>>(points: Seq<(P, R)>) -> Seq<
    HomoControlPoint<R, P>,
> {
    Seq::new(
        points.len(),
        |i: int| HomoControlPoint::<R, P>::from_control_point_spec(points[i].0, points[i].1),
    )
}

/// Turns every point with its weight into its homogeneous form.
pub fn to_homogeneous<R: Real, P: ControlPoint<R>>(points: &Vec<(P, R)>) -> (homo: Vec<
    HomoControlPoint<R, P>,
>)
    ensures
        homo@ == homogeneous(points@),
{
    let mut homo: Vec<HomoControlPoint<R, P>> = Vec::new();
    let mut i: usize = 0;
    while i < points.len()
        invariant
            i <= points@.len(),
            homo@.len() == i,
            forall|t: int|
                0 <= t < i ==> homo@[t] == HomoControlPoint::<R, P>::from_control_point_spec(
                    points@[t].0,
                    points@[t].1,
                ),
        decreases points@.len() - i,
    {
        let (p, w) = points[i];
        homo.push(HomoControlPoint::from_control_point(p, w));
        i += 1;
    }
    assert(homo@ =~= homogeneous(points@));
    homo
}

impl<R: Real, P: ControlPoint<R>> NurbsCurveBase<R, P> {
    /// The curve of the given degree over the given knots, with the given
    /// control points and their weights; nothing is checked.
    pub fn new(control_points_weights: Vec<(P, R)>, knots: Vec<R>, degree: usize) -> (curve: Self)
        ensures
            curve.control_points_spec() == homogeneous(control_points_weights@),
            curve.basis_function_spec().knots_spec() == knots@,
            curve.basis_function_spec().degree_spec() == degree,
    {
        let control_points = to_homogeneous(&control_points_weights);
        Self { basis_function: BsplineBasis::new(degree, Knots::new(knots)), control_points }
    }
}

impl<R: Real, P: ControlPoint<R>> ParametricCurve<R, HomoControlPoint<R, P>> for NurbsCurveBase<
    R,
    P,
> {
    type BasisFunction = BsplineBasis<R>;

    closed spec fn basis_function_spec(&self) -> BsplineBasis<R> {
        self.basis_function
    }

    closed spec fn control_points_spec(&self) -> Seq<HomoControlPoint<R, P>> {
        self.control_points@
    }

    fn basis_function(&self) -> &BsplineBasis<R> {
        &self.basis_function
    }

    fn control_points(&self) -> &Vec<HomoControlPoint<R, P>> {
        &self.control_points
    }
}

impl<R: Real, P: ControlPoint<R>> RationalCurve<R, P> for NurbsCurveBase<R, P> {

}

} // verus!
