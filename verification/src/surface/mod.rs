//! Parametric surfaces: two bases together with a grid of control points.
use vstd::prelude::*;

pub mod bezier;
pub mod bspline;
pub mod nurbs;

pub use bezier::BezierSurface;
pub use bspline::BsplineSurfaceBase;
pub use nurbs::NurbsSurfaceBase;

use crate::basics::algorithm::{
    get_surface_ders, get_surface_point, grid_fits, rows, surface_ders, surface_point,
};
use crate::basics::point::{ControlPoint, HomoControlPoint};
use crate::basics::algorithm::capped;
use crate::basics::rational::{get_rational_surface_ders, surface_rational_ders, MAX_BINOMIAL};
use crate::basis_function::knots::{in_domain, span_of};
use crate::basis_function::Basis;
use crate::scalar::Real;

verus! {

/// A surface given by a basis along `u`, a basis along `v` and the grid of
/// control points of type `P` that they weigh: one row for each basis
/// function along `u`, one column for each along `v`.
pub trait ParametricSurface<R: Real, P>: Sized {
    type BasisFunction: Basis<R>;

    spec fn u_basis_function_spec(&self) -> Self::BasisFunction;

    spec fn v_basis_function_spec(&self) -> Self::BasisFunction;

    spec fn control_points_spec(&self) -> Seq<Vec<P>>;

    fn u_basis_function(&self) -> (basis: &Self::BasisFunction)
        ensures
            *basis == self.u_basis_function_spec(),
    ;

    fn v_basis_function(&self) -> (basis: &Self::BasisFunction)
        ensures
            *basis == self.v_basis_function_spec(),
    ;

    fn control_points(&self) -> (points: &Vec<Vec<P>>)
        ensures
            points@ == self.control_points_spec(),
    ;

    /// The degree along `u`.
    fn p(&self) -> (p: usize)
        ensures
            p == self.u_basis_function_spec().degree_spec(),
    {
        self.u_basis_function().degree()
    }

    /// The degree along `v`.
    fn q(&self) -> (q: usize)
        ensures
            q == self.v_basis_function_spec().degree_spec(),
    {
        self.v_basis_function().degree()
    }
}

/// The knots of the surface are well formed for its degrees and pair with
/// the rows and columns of its grid of control points.
pub open spec fn well_formed<R: Real, P, S: ParametricSurface<R, P>>(surface: &S) -> bool {
    grid_fits(
        &surface.u_basis_function_spec(),
        &surface.v_basis_function_spec(),
        surface.control_points_spec(),
    )
}

/// `(u, v)` lies in the domain of the surface.
pub open spec fn accepts<R: Real, P, S: ParametricSurface<R, P>>(surface: &S, u: R, v: R) -> bool {
    &&& in_domain(surface.u_basis_function_spec().knots_spec(), u)
    &&& in_domain(surface.v_basis_function_spec().knots_spec(), v)
}

/// The point of the surface at `(u, v)`, as the tensor product of the two
/// bases defines it.
pub open spec fn point_at<R: Real, P: ControlPoint<R>, S: ParametricSurface<R, P>>(
    surface: &S,
    u: R,
    v: R,
) -> P {
    let u_basis = surface.u_basis_function_spec();
    let v_basis = surface.v_basis_function_spec();
    surface_point(
        u_basis.knots_spec(),
        u_basis.degree_spec(),
        v_basis.knots_spec(),
        v_basis.degree_spec(),
        surface.control_points_spec(),
        u,
        v,
        span_of(u_basis.knots_spec(), u_basis.degree_spec(), u),
        span_of(v_basis.knots_spec(), v_basis.degree_spec(), v),
    )
}

/// The grid of mixed derivatives of the surface at `(u, v)` up to the total
/// order `upper`.
pub open spec fn ders_at<R: Real, P: ControlPoint<R>, S: ParametricSurface<R, P>>(
    surface: &S,
    upper: nat,
    u: R,
    v: R,
) -> Seq<Seq<P>> {
    let u_basis = surface.u_basis_function_spec();
    let v_basis = surface.v_basis_function_spec();
    surface_ders(
        u_basis.knots_spec(),
        u_basis.degree_spec(),
        v_basis.knots_spec(),
        v_basis.degree_spec(),
        surface.control_points_spec(),
        upper,
        u,
        v,
        span_of(u_basis.knots_spec(), u_basis.degree_spec(), u),
        span_of(v_basis.knots_spec(), v_basis.degree_spec(), v),
    )
}

/// A surface whose control points are plain points.
pub trait NonRationalSurface<R: Real, P: ControlPoint<R>>: ParametricSurface<R, P> {
    /// The point of the surface at `(u, v)`.
    fn get_point(&self, u: R, v: R) -> (point: P)
        requires
            well_formed(self),
            accepts(self, u, v),
        ensures
            point == point_at(self, u, v),
    {
        get_surface_point(
            self.u_basis_function(),
            self.v_basis_function(),
            self.control_points(),
            u,
            v,
        )
    }

    /// The mixed derivatives of the surface at `(u, v)` up to the total
    /// order `der_upper_bond`: entry `(k, l)` is of order `k` along `u` and
    /// `l` along `v`.
    fn get_ders(&self, der_upper_bond: usize, u: R, v: R) -> (ders: Vec<Vec<P>>)
        requires
            well_formed(self),
            accepts(self, u, v),
        ensures
            rows(ders@) == ders_at(self, der_upper_bond as nat, u, v),
    {
        get_surface_ders(
            self.u_basis_function(),
            self.v_basis_function(),
            self.control_points(),
            der_upper_bond,
            u,
            v,
        )
    }
}

/// A surface whose control points are homogeneous: a rational surface.
pub trait RationalSurface<R: Real, P: ControlPoint<R>>: ParametricSurface<
    R,
    HomoControlPoint<R, P>,
> {
    /// The point of the surface at `(u, v)`: the point in homogeneous space
    /// with its weight divided out.
    fn get_point(&self, u: R, v: R) -> (point: P)
        requires
            well_formed(self),
            accepts(self, u, v),
        ensures
            point == point_at(self, u, v).to_control_point_and_weight_spec().0,
    {
        get_surface_point(
            self.u_basis_function(),
            self.v_basis_function(),
            self.control_points(),
            u,
            v,
        ).to_control_point_and_weight().0
    }

    /// The mixed derivatives of the surface at `(u, v)` in Euclidean space up
    /// to the total order `der_upper_bond`, as a grid of `p + 1` by `q + 1`
    /// entries: entry `(k, l)` is of order `k` along `u` and `l` along `v`
    /// where `k + l` is at most `der_upper_bond`, and the origin elsewhere.
    fn get_ders(&self, der_upper_bond: usize, u: R, v: R) -> (ders: Vec<Vec<P>>)
        requires
            well_formed(self),
            accepts(self, u, v),
            capped(der_upper_bond, self.u_basis_function_spec().degree_spec()) <= MAX_BINOMIAL,
            capped(der_upper_bond, self.v_basis_function_spec().degree_spec()) <= MAX_BINOMIAL,
        ensures
            rows(ders@) == surface_rational_ders(
                ders_at(self, der_upper_bond as nat, u, v),
                der_upper_bond as nat,
            ),
    {
        get_rational_surface_ders(
            self.u_basis_function(),
            self.v_basis_function(),
            self.control_points(),
            der_upper_bond,
            u,
            v,
        )
    }
}

} // verus!
