//! Rational B-spline surfaces.
use vstd::prelude::*;

use crate::basics::point::{ControlPoint, HomoControlPoint};
use crate::basis_function::bspline_basis::uniform_knots;
use crate::basis_function::{Basis, BsplineBasis, Knots};
use crate::curve::nurbs::{homogeneous, to_homogeneous};
use crate::scalar::{Real, MAX_EXACT_COUNT};
use crate::surface::bspline::rectangular;
use crate::surface::{well_formed, ParametricSurface, RationalSurface};

verus! {

/// A NURBS surface: two B-spline bases and a grid of homogeneous control
/// points.
pub struct NurbsSurfaceBase<R: Real, P: ControlPoint<R>> {
    u_basis_function: BsplineBasis<R>,
    v_basis_function: BsplineBasis<R>,
    control_points: Vec<Vec<HomoControlPoint<R, P>>>,
}

/// `homo` holds, row by row, the homogeneous forms of the points of `grid`
/// with their weights.
pub open spec fn is_homogeneous_grid<R: Real, P: ControlPoint<R>>(
    homo: Seq<Vec<HomoControlPoint<R, P>>>,
    grid: Seq<Vec<(P, R)>>,
) -> bool {
    &&& homo.len() == grid.len()
    &&& forall|r: int| 0 <= r < grid.len() ==> (#[trigger] homo[r])@ == homogeneous(grid[r]@)
}

impl<R: Real, P: ControlPoint<R>> NurbsSurfaceBase<R, P> {
    /// The surface of the given degrees over the given knots and
    /// homogeneous control points; nothing is checked.
    pub fn new(
        control_points: Vec<Vec<HomoControlPoint<R, P>>>,
        u_degree: usize,
        u_knot: Vec<R>,
        v_degree: usize,
        v_knot: Vec<R>,
    ) -> (surface: Self)
        ensures
            surface.control_points_spec() == control_points@,
            surface.u_basis_function_spec().degree_spec() == u_degree,
            surface.u_basis_function_spec().knots_spec() == u_knot@,
            surface.v_basis_function_spec().degree_spec() == v_degree,
            surface.v_basis_function_spec().knots_spec() == v_knot@,
    {
        Self {
            u_basis_function: BsplineBasis::new(u_degree, Knots::new(u_knot)),
            v_basis_function: BsplineBasis::new(v_degree, Knots::new(v_knot)),
            control_points,
        }
    }

    /// The surface of the given degrees over uniform clamped knot vectors,
    /// with the given control points and their weights. There must be at
    /// least `u_degree + 1` rows of control points, and at least
    /// `v_degree + 1` in the first row.
    pub fn new_uniform(
        control_points_weights: Vec<Vec<(P, R)>>,
        u_degree: usize,
        v_degree: usize,
    ) -> (surface: Self)
        requires
            u_degree < control_points_weights@.len(),
            v_degree < control_points_weights@[0]@.len(),
            control_points_weights@.len() + u_degree + 1 <= usize::MAX,
            control_points_weights@[0]@.len() + v_degree + 1 <= usize::MAX,
        ensures
            is_homogeneous_grid(surface.control_points_spec(), control_points_weights@),
            surface.u_basis_function_spec().degree_spec() == u_degree,
            surface.v_basis_function_spec().degree_spec() == v_degree,
            surface.u_basis_function_spec().knots_spec() == uniform_knots::<R>(
                u_degree,
                control_points_weights@.len() as usize,
            ),
            surface.v_basis_function_spec().knots_spec() == uniform_knots::<R>(
                v_degree,
                control_points_weights@[0]@.len() as usize,
            ),
            rectangular(control_points_weights@) && control_points_weights@.len() - u_degree
                <= MAX_EXACT_COUNT && control_points_weights@[0]@.len() - v_degree
                <= MAX_EXACT_COUNT ==> well_formed(&surface),
    {
        let mut control_points: Vec<Vec<HomoControlPoint<R, P>>> = Vec::new();
        let mut r: usize = 0;
        while r < control_points_weights.len()
            invariant
                r <= control_points_weights@.len(),
                control_points@.len() == r,
                forall|t: int|
                    0 <= t < r ==> (#[trigger] control_points@[t])@ == homogeneous(
                        control_points_weights@[t]@,
                    ),
            decreases control_points_weights@.len() - r,
        {
            control_points.push(to_homogeneous(&control_points_weights[r]));
            r += 1;
        }
        let u_basis_function = BsplineBasis::new_uniform(u_degree, control_points.len()).unwrap();
        let v_basis_function = BsplineBasis::new_uniform(
            v_degree,
            control_points[0].len(),
        ).unwrap();
        Self { u_basis_function, v_basis_function, control_points }
    }
}

impl<R: Real, P: ControlPoint<R>> ParametricSurface<R, HomoControlPoint<R, P>> for NurbsSurfaceBase<
    R,
    P,
> {
    type BasisFunction = BsplineBasis<R>;

    closed spec fn u_basis_function_spec(&self) -> BsplineBasis<R> {
        self.u_basis_function
    }

    closed spec fn v_basis_function_spec(&self) -> BsplineBasis<R> {
        self.v_basis_function
    }

    closed spec fn control_points_spec(&self) -> Seq<Vec<HomoControlPoint<R, P>>> {
        self.control_points@
    }

    fn u_basis_function(&self) -> &BsplineBasis<R> {
        &self.u_basis_function
    }

    fn v_basis_function(&self) -> &BsplineBasis<R> {
        &self.v_basis_function
    }

    fn control_points(&self) -> &Vec<Vec<HomoControlPoint<R, P>>> {
        &self.control_points
    }
}

impl<R: Real, P: ControlPoint<R>> RationalSurface<R, P> for NurbsSurfaceBase<R, P> {

}

} // verus!
