//! B-spline surfaces.
use vstd::prelude::*;

use crate::basics::point::ControlPoint;
use crate::basis_function::bspline_basis::uniform_knots;
use crate::basis_function::{Basis, BsplineBasis};
use crate::scalar::{Real, MAX_EXACT_COUNT};
use crate::surface::{well_formed, NonRationalSurface, ParametricSurface};

verus! {

/// A B-spline surface: two B-spline bases and a grid of control points.
pub struct BsplineSurfaceBase<R: Real, P: ControlPoint<R>> {
    u_basis_function: BsplineBasis<R>,
    v_basis_function: BsplineBasis<R>,
    control_points: Vec<Vec<P>>,
}

/// Every row of the grid has as many entries as the first one.
pub open spec fn rectangular<P>(grid: Seq<Vec<P>>) -> bool {
    forall|r: int| 0 <= r < grid.len() ==> (#[trigger] grid[r])@.len() == grid[0]@.len()
}

impl<R: Real, P: ControlPoint<R>> BsplineSurfaceBase<R, P> {
    /// The surface of the given degrees over uniform clamped knot vectors.
    /// There must be at least `u_degree + 1` rows of control points, and at
    /// least `v_degree + 1` in the first row.
    pub fn new_uniform(control_points: Vec<Vec<P>>, u_degree: usize, v_degree: usize) -> (surface:
        Self)
        requires
            u_degree < control_points@.len(),
            v_degree < control_points@[0]@.len(),
            control_points@.len() + u_degree + 1 <= usize::MAX,
            control_points@[0]@.len() + v_degree + 1 <= usize::MAX,
        ensures
            surface.control_points_spec() == control_points@,
            surface.u_basis_function_spec().degree_spec() == u_degree,
            surface.v_basis_function_spec().degree_spec() == v_degree,
            surface.u_basis_function_spec().knots_spec() == uniform_knots::<R>(
                u_degree,
                control_points@.len() as usize,
            ),
            surface.v_basis_function_spec().knots_spec() == uniform_knots::<R>(
                v_degree,
                control_points@[0]@.len() as usize,
            ),
            rectangular(control_points@) && control_points@.len() - u_degree <= MAX_EXACT_COUNT
                && control_points@[0]@.len() - v_degree <= MAX_EXACT_COUNT ==> well_formed(
                &surface,
            ),
    {
        let u_basis_function = BsplineBasis::new_uniform(u_degree, control_points.len()).unwrap();
        let v_basis_function = BsplineBasis::new_uniform(
            v_degree,
            control_points[0].len(),
        ).unwrap();
        Self { u_basis_function, v_basis_function, control_points }
    }
}

impl<R: Real, P: ControlPoint<R>> ParametricSurface<R, P> for BsplineSurfaceBase<R, P> {
    type BasisFunction = BsplineBasis<R>;

    closed spec fn u_basis_function_spec(&self) -> BsplineBasis<R> {
        self.u_basis_function
    }

    closed spec fn v_basis_function_spec(&self) -> BsplineBasis<R> {
        self.v_basis_function
    }

    closed spec fn control_points_spec(&self) -> Seq<Vec<P>> {
        self.control_points@
    }

    fn u_basis_function(&self) -> &BsplineBasis<R> {
        &self.u_basis_function
    }

    fn v_basis_function(&self) -> &BsplineBasis<R> {
        &self.v_basis_function
    }

    fn control_points(&self) -> &Vec<Vec<P>> {
        &self.control_points
    }
}

impl<R: Real, P: ControlPoint<R>> NonRationalSurface<R, P> for BsplineSurfaceBase<R, P> {

}

} // verus!
