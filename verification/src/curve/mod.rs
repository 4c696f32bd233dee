//! Parametric curves: a basis together with a sequence of control points.
use vstd::prelude::*;

pub mod bezier;
pub mod bspline;
pub mod nurbs;

pub use bezier::AbstructBezier;
pub use bspline::BsplineCurveBase;
pub use nurbs::NurbsCurveBase;

use crate::basics::algorithm::{
    capped, curve_ders, curve_point, fits, get_curve_ders, get_curve_point,
};
use crate::basics::point::{ControlPoint, HomoControlPoint};
use crate::basics::rational::{
    get_rational_ders, rational_ders, weight_parts, weighted_parts, MAX_BINOMIAL,
};
use crate::basis_function::knots::{in_domain, span_of};
use crate::basis_function::Basis;
use crate::scalar::Real;

verus! {

/// A B-spline curve, by its other name.
pub type AbstructBspline<R, P> = BsplineCurveBase<R, P>;

/// A NURBS curve, by its other name.
pub type AbstructNURBS<R, P> = NurbsCurveBase<R, P>;

/// A curve given by a basis and the control points of type `P` that the
/// basis functions weigh.
pub trait ParametricCurve<R: Real, P>: Sized {
    type BasisFunction: Basis<R>;

    spec fn basis_function_spec(&self) -> Self::BasisFunction;

    spec fn control_points_spec(&self) -> Seq<P>;

    fn basis_function(&self) -> (basis: &Self::BasisFunction)
        ensures
            *basis == self.basis_function_spec(),
    ;

    fn control_points(&self) -> (points: &Vec<P>)
        ensures
            points@ == self.control_points_spec(),
    ;

    fn degree(&self) -> (p: usize)
        ensures
            p == self.basis_function_spec().degree_spec(),
    {
        self.basis_function().degree()
    }
}

/// The knots of the curve are well formed for its degree and pair with the
/// number of its control points.
pub open spec fn well_formed<R: Real, P, C: ParametricCurve<R, P>>(curve: &C) -> bool {
    fits(&curve.basis_function_spec(), curve.control_points_spec().len())
}

/// `u` lies in the domain of the curve.
pub open spec fn accepts<R: Real, P, C: ParametricCurve<R, P>>(curve: &C, u: R) -> bool {
    in_domain(curve.basis_function_spec().knots_spec(), u)
}

/// The knot span of the curve that `u` lies in.
pub open spec fn span<R: Real, P, C: ParametricCurve<R, P>>(curve: &C, u: R) -> int {
    span_of(
        curve.basis_function_spec().knots_spec(),
        curve.basis_function_spec().degree_spec(),
        u,
    )
}

/// A curve whose control points are plain points.
pub trait NonRationalCurve<R: Real, P: ControlPoint<R>>: ParametricCurve<R, P> {
    /// The point of the curve at `u`.
    fn get_point(&self, u: R) -> (point: P)
        requires
            well_formed(self),
            accepts(self, u),
        ensures
            point == curve_point(
                self.basis_function_spec().knots_spec(),
                self.basis_function_spec().degree_spec(),
                self.control_points_spec(),
                u,
                span(self, u),
            ),
    {
        get_curve_point(self.basis_function(), self.control_points(), u)
    }

    /// The point and the derivatives of the curve at `u`, up to the order
    /// `der_upper_bond` or the degree, whichever is smaller.
    fn get_ders(&self, der_upper_bond: usize, u: R) -> (ders: Vec<P>)
        requires
            well_formed(self),
            accepts(self, u),
        ensures
            ders@ == curve_ders(
                self.basis_function_spec().knots_spec(),
                self.basis_function_spec().degree_spec(),
                self.control_points_spec(),
                capped(der_upper_bond, self.basis_function_spec().degree_spec()),
                u,
                span(self, u),
            ),
    {
        get_curve_ders(self.basis_function(), self.control_points(), der_upper_bond, u)
    }
}

/// A curve whose control points are homogeneous: a rational curve.
pub trait RationalCurve<R: Real, P: ControlPoint<R>>: ParametricCurve<
    R,
    HomoControlPoint<R, P>,
> {
    /// The point of the curve at `u`: the point in homogeneous space with
    /// its weight divided out.
    fn get_point(&self, u: R) -> (point: P)
        requires
            well_formed(self),
            accepts(self, u),
        ensures
            point == curve_point(
                self.basis_function_spec().knots_spec(),
                self.basis_function_spec().degree_spec(),
                self.control_points_spec(),
                u,
                span(self, u),
            ).to_control_point_and_weight_spec().0,
    {
        get_curve_point(
            self.basis_function(),
            self.control_points(),
            u,
        ).to_control_point_and_weight().0
    }

    /// The point and the derivatives of the curve at `u` in Euclidean space,
    /// up to the order `der_upper_bond` or the degree, whichever is smaller.
    fn get_ders(&self, der_upper_bond: usize, u: R) -> (ders: Vec<P>)
        requires
            well_formed(self),
            accepts(self, u),
            capped(der_upper_bond, self.basis_function_spec().degree_spec()) <= MAX_BINOMIAL,
        ensures
            ({
                let homo_ders = curve_ders(
                    self.basis_function_spec().knots_spec(),
                    self.basis_function_spec().degree_spec(),
                    self.control_points_spec(),
                    capped(der_upper_bond, self.basis_function_spec().degree_spec()),
                    u,
                    span(self, u),
                );
                ders@ == rational_ders(weighted_parts(homo_ders), weight_parts(homo_ders))
            }),
    {
        get_rational_ders(self.basis_function(), self.control_points(), der_upper_bond, u)
    }
}

} // verus!
