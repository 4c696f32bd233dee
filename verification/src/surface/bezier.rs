//! Bézier surfaces.
use vstd::prelude::*;

use crate::basics::algorithm::{blend, column, de_casteljaul};
use crate::basics::point::ControlPoint;
use crate::basis_function::bernstein_basis::bernstein_knots;
use crate::basis_function::{Basis, BernsteinBasis};
use crate::scalar::Real;
use crate::surface::bspline::rectangular;
use crate::surface::{well_formed, NonRationalSurface, ParametricSurface};

verus! {

/// A Bézier surface: the Bernstein bases that its grid of control points
/// asks for, and the grid.
pub struct BezierSurface<R: Real, P: ControlPoint<R>> {
    u_basis_function: BernsteinBasis<R>,
    v_basis_function: BernsteinBasis<R>,
    control_points: Vec<Vec<P>>,
}

/// The point at `(u, v)` of the Bézier surface of degree `n` along `u` and
/// `m` along `v` by the de Casteljau scheme, run first along the direction
/// of the smaller degree: along `u` in every column and then along `v` where
/// `n <= m`, else along `v` in every row and then along `u`.
pub open spec fn blended_surface_point<R: Real, P: ControlPoint<R>>(
    grid: Seq<Vec<P>>,
    n: nat,
    m: nat,
    u: R,
    v: R,
) -> P {
    if n <= m {
        blend(Seq::new(m + 1, |j: int| blend(column(grid, j), u, n, 0)), v, m, 0)
    } else {
        blend(Seq::new(n + 1, |i: int| blend(grid[i]@, v, m, 0)), u, n, 0)
    }
}

/// The grid has one row more than the degree `n` and, in every row, one
/// entry more than the degree `m`.
pub open spec fn is_bezier_grid<P>(grid: Seq<Vec<P>>, n: nat, m: nat) -> bool {
    &&& grid.len() == n + 1
    &&& forall|r: int| 0 <= r < grid.len() ==> (#[trigger] grid[r])@.len() == m + 1
}

/// Column `col` of the grid, gathered into a sequence of its own.
fn gather_column<P: Copy>(grid: &Vec<Vec<P>>, col: usize) -> (points: Vec<P>)
    requires
        forall|r: int| 0 <= r < grid@.len() ==> col < (#[trigger] grid@[r])@.len(),
    ensures
        points@ == column(grid@, col as int),
{
    let mut points: Vec<P> = Vec::new();
    let mut r: usize = 0;
    while r < grid.len()
        invariant
            r <= grid@.len(),
            forall|t: int| 0 <= t < grid@.len() ==> col < (#[trigger] grid@[t])@.len(),
            points@.len() == r,
            forall|t: int| 0 <= t < r ==> points@[t] == grid@[t]@[col as int],
        decreases grid@.len() - r,
    {
        points.push(grid[r][col]);
        r += 1;
    }
    assert(points@ =~= column(grid@, col as int));
    points
}

impl<R: Real, P: ControlPoint<R>> BezierSurface<R, P> {
    /// The Bézier surface of the given grid of control points, which has at
    /// least one row.
    pub fn new(control_points: Vec<Vec<P>>) -> (surface: Self)
        requires
            control_points@.len() > 0,
            2 * control_points@.len() <= usize::MAX,
            2 * control_points@[0]@.len() <= usize::MAX,
        ensures
            surface.control_points_spec() == control_points@,
            surface.u_basis_function_spec().degree_spec() == control_points@.len() - 1,
            surface.u_basis_function_spec().knots_spec() == bernstein_knots::<R>(
                control_points@.len() as usize,
            ),
            surface.v_basis_function_spec().degree_spec() == (if control_points@[0]@.len() == 0 {
                0
            } else {
                control_points@[0]@.len() - 1
            }),
            surface.v_basis_function_spec().knots_spec() == bernstein_knots::<R>(
                if control_points@[0]@.len() == 0 {
                    1
                } else {
                    control_points@[0]@.len() as usize
                },
            ),
            control_points@[0]@.len() > 0 && rectangular(control_points@) ==> well_formed(
                &surface,
            ) && is_bezier_grid(
                control_points@,
                surface.u_basis_function_spec().degree_spec(),
                surface.v_basis_function_spec().degree_spec(),
            ),
    {
        let u_basis_function = BernsteinBasis::new(control_points.len());
        let v_basis_function = BernsteinBasis::new(control_points[0].len());
        Self { u_basis_function, v_basis_function, control_points }
    }

    /// The point of the surface at `(u, v)` by the de Casteljau scheme.
    pub fn get_point(&self, u: R, v: R) -> (point: P)
        requires
            is_bezier_grid(
                self.control_points_spec(),
                self.u_basis_function_spec().degree_spec(),
                self.v_basis_function_spec().degree_spec(),
            ),
        ensures
            point == blended_surface_point(
                self.control_points_spec(),
                self.u_basis_function_spec().degree_spec(),
                self.v_basis_function_spec().degree_spec(),
                u,
                v,
            ),
    {
        let n = self.p();
        let m = self.q();
        let count = self.control_points.len();
        let width = self.control_points[0].len();
        let mut q: Vec<P> = Vec::new();
        if n <= m {
            let mut j: usize = 0;
            while j <= m
                invariant
                    j <= m + 1,
                    n + 1 == count == self.control_points@.len(),
                    m + 1 == width,
                    forall|r: int|
                        0 <= r < self.control_points@.len() ==> (#[trigger] self.control_points@[
                            r
                        ])@.len() == width,
                    q@.len() == j,
                    forall|t: int|
                        0 <= t < j ==> q@[t] == blend(
                            column(self.control_points@, t),
                            u,
                            n as nat,
                            0,
                        ),
                decreases m + 1 - j,
            {
                let points = gather_column(&self.control_points, j);
                q.push(de_casteljaul(n, u, &points));
                j += 1;
            }
            assert(q@ =~= Seq::new(
                (m + 1) as nat,
                |j: int| blend(column(self.control_points@, j), u, n as nat, 0),
            ));
            de_casteljaul(m, v, &q)
        } else {
            let mut i: usize = 0;
            while i <= n
                invariant
                    i <= n + 1,
                    n + 1 == count == self.control_points@.len(),
                    m + 1 == width,
                    forall|r: int|
                        0 <= r < self.control_points@.len() ==> (#[trigger] self.control_points@[
                            r
                        ])@.len() == width,
                    q@.len() == i,
                    forall|t: int|
                        0 <= t < i ==> q@[t] == blend(self.control_points@[t]@, v, m as nat, 0),
                decreases n + 1 - i,
            {
                q.push(de_casteljaul(m, v, &self.control_points[i]));
                i += 1;
            }
            assert(q@ =~= Seq::new(
                (n + 1) as nat,
                |i: int| blend(self.control_points@[i]@, v, m as nat, 0),
            ));
            de_casteljaul(n, u, &q)
        }
    }
}

impl<R: Real, P: ControlPoint<R>> ParametricSurface<R, P> for BezierSurface<R, P> {
    type BasisFunction = BernsteinBasis<R>;

    closed spec fn u_basis_function_spec(&self) -> BernsteinBasis<R> {
        self.u_basis_function
    }

    closed spec fn v_basis_function_spec(&self) -> BernsteinBasis<R> {
        self.v_basis_function
    }

    closed spec fn control_points_spec(&self) -> Seq<Vec<P>> {
        self.control_points@
    }

    fn u_basis_function(&self) -> &BernsteinBasis<R> {
        &self.u_basis_function
    }

    fn v_basis_function(&self) -> &BernsteinBasis<R> {
        &self.v_basis_function
    }

    fn control_points(&self) -> &Vec<Vec<P>> {
        &self.control_points
    }
}

impl<R: Real, P: ControlPoint<R>> NonRationalSurface<R, P> for BezierSurface<R, P> {

}

} // verus!
