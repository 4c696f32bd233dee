//! Evaluation of points and derivatives of curves and surfaces from a basis
//! and its control points.
use vstd::prelude::*;

use crate::basics::point::ControlPoint;
use crate::basis_function::derivative::{derivative_row, is_derivative_table};
use crate::basis_function::knots::{
    domain_error, in_domain, last_span_not_empty, span_of, well_formed,
};
use crate::basis_function::{basis_values, repeated, Basis, BasisFunctionError};
use crate::scalar::Real;

verus! {

/// The sum of the `n` points `points[start ..]`, each scaled by its weight
/// in `weights`, added from the left onto the origin.
pub open spec fn weighted_sum<R: Real, P: ControlPoint<R>>(
    points: Seq<P>,
    start: int,
    weights: Seq<R>,
    n: nat,
) -> P
    decreases n,
{
    if n == 0 {
        P::zeros_spec()
    } else {
        weighted_sum(points, start, weights, (n - 1) as nat).plus_spec(
            points[start + n - 1].times_spec(weights[n - 1]),
        )
    }
}

/// Level `k` of the de Casteljau scheme at position `i`: the control point
/// itself at level 0, and above that the blend
/// `below[i] * (1 - u) + below[i + 1] * u` of two neighbours one level below.
pub open spec fn blend<R: Real, P: ControlPoint<R>>(points: Seq<P>, u: R, k: nat, i: int) -> P
    decreases k,
{
    if k == 0 {
        points[i]
    } else {
        blend(points, u, (k - 1) as nat, i).times_spec(R::one_spec().minus_spec(u)).plus_spec(
            blend(points, u, (k - 1) as nat, i + 1).times_spec(u),
        )
    }
}

/// The point at `u` of the curve with the given basis and control points,
/// where `u` lies in span `span`: the basis-function values of that span
/// applied to the control points that they belong to.
pub open spec fn curve_point<R: Real, P: ControlPoint<R>>(
    knots: Seq<R>,
    degree: nat,
    points: Seq<P>,
    u: R,
    span: int,
) -> P {
    weighted_sum(points, span - degree, basis_values(knots, u, span, degree), degree + 1)
}

/// The derivatives of orders `0 ..= upper` at `u` of the curve with the given
/// basis and control points, where `u` lies in span `span` and `upper` is at
/// most the degree: row `k` of the derivative table applied to the control
/// points.
pub open spec fn curve_ders<R: Real, P: ControlPoint<R>>(
    knots: Seq<R>,
    degree: nat,
    points: Seq<P>,
    upper: nat,
    u: R,
    span: int,
) -> Seq<P> {
    Seq::new(
        upper + 1,
        |k: int|
            weighted_sum(
                points,
                span - degree,
                derivative_row(knots, u, span, degree, k as nat),
                degree + 1,
            ),
    )
}

/// A basis and a sequence of control points fit together: the knots are well
/// formed for the degree, their last span is not empty, and there are
/// `degree + 1` fewer points than knots.
pub open spec fn fits<R: Real, B: Basis<R>>(basis: &B, points: nat) -> bool {
    &&& well_formed(basis.knots_spec(), basis.degree_spec())
    &&& last_span_not_empty(basis.knots_spec(), basis.degree_spec())
    &&& points + basis.degree_spec() + 1 == basis.knots_spec().len()
}

/// Tests whether a basis and a number of control points fit together.
pub fn is_fit<R: Real, B: Basis<R>>(basis: &B, points: usize) -> (b: bool)
    ensures
        b == fits(basis, points as nat),
{
    let degree = basis.degree();
    let knots = basis.knots();
    let len = knots.length();
    knots.is_well_formed(degree) && len - degree - 1 == points && knots.index(
        len - degree - 2,
    ).less(knots.index(len - degree - 1))
}

/// The smaller of the requested derivative order and the degree.
pub open spec fn capped(requested: usize, degree: nat) -> nat {
    if requested <= degree {
        requested as nat
    } else {
        degree
    }
}

/// `weights` applied to `points[start ..]`.
fn combine<R: Real, P: ControlPoint<R>>(points: &Vec<P>, start: usize, weights: &Vec<R>) -> (res:
    P)
    requires
        start + weights@.len() <= points@.len(),
    ensures
        res == weighted_sum(points@, start as int, weights@, weights@.len()),
{
    let mut res = P::zeros();
    let len = points.len();
    let mut j: usize = 0;
    while j < weights.len()
        invariant
            j <= weights@.len(),
            start + weights@.len() <= points@.len() == len,
            res == weighted_sum(points@, start as int, weights@, j as nat),
        decreases weights@.len() - j,
    {
        res = res.plus(points[start + j].times(weights[j]));
        j += 1;
    }
    res
}

/// Evaluates a Bézier curve of degree `n` at `u` by repeated blending of
/// neighbouring control points.
pub fn de_casteljaul<R: Real, P: ControlPoint<R>>(n: usize, u: R, control_points: &Vec<P>) -> (res:
    P)
    requires
        n < control_points@.len(),
    ensures
        res == blend(control_points@, u, n as nat, 0),
{
    let mut q: Vec<P> = Vec::new();
    let len = control_points.len();
    let mut i: usize = 0;
    while i <= n
        invariant
            i <= n + 1,
            n < control_points@.len() == len,
            q@.len() == i,
            forall|t: int| 0 <= t < i ==> q@[t] == control_points@[t],
        decreases n + 1 - i,
    {
        q.push(control_points[i]);
        i += 1;
    }
    let u1 = R::one().minus(u);
    let mut k: usize = 1;
    while k <= n
        invariant
            1 <= k <= n + 1,
            n < control_points@.len() == len,
            q@.len() == n + 1,
            u1 == R::one_spec().minus_spec(u),
            forall|t: int|
                0 <= t <= n + 1 - k ==> q@[t] == blend(control_points@, u, (k - 1) as nat, t),
        decreases n + 1 - k,
    {
        let mut i: usize = 0;
        while i <= n - k
            invariant
                1 <= k <= n,
                i <= n - k + 1,
                n < control_points@.len(),
                q@.len() == n + 1,
                u1 == R::one_spec().minus_spec(u),
                forall|t: int| 0 <= t < i ==> q@[t] == blend(control_points@, u, k as nat, t),
                forall|t: int|
                    i <= t <= n + 1 - k ==> q@[t] == blend(
                        control_points@,
                        u,
                        (k - 1) as nat,
                        t,
                    ),
            decreases n - k + 1 - i,
        {
            let blended = q[i].times(u1).plus(q[i + 1].times(u));
            q.set(i, blended);
            i += 1;
        }
        k += 1;
    }
    q[0]
}

/// The point of a curve at the parameter `u`.
pub fn get_curve_point<R: Real, B: Basis<R>, P: ControlPoint<R>>(
    basis: &B,
    control_points: &Vec<P>,
    u: R,
) -> (res: P)
    requires
        fits(basis, control_points@.len()),
        in_domain(basis.knots_spec(), u),
    ensures
        res == curve_point(
            basis.knots_spec(),
            basis.degree_spec(),
            control_points@,
            u,
            span_of(basis.knots_spec(), basis.degree_spec(), u),
        ),
{
    let i = basis.get_span(u);
    let p = basis.degree();
    let ns = basis.get_values(u, i);
    combine(control_points, i - p, &ns)
}

/// The derivatives of a curve at `u`, of the orders from 0 up to the smaller
/// of `der_upper_bond` and the degree.
pub fn get_curve_ders<R: Real, B: Basis<R>, P: ControlPoint<R>>(
    basis: &B,
    control_points: &Vec<P>,
    der_upper_bond: usize,
    u: R,
) -> (ck: Vec<P>)
    requires
        fits(basis, control_points@.len()),
        in_domain(basis.knots_spec(), u),
    ensures
        ck@ == curve_ders(
            basis.knots_spec(),
            basis.degree_spec(),
            control_points@,
            capped(der_upper_bond, basis.degree_spec()),
            u,
            span_of(basis.knots_spec(), basis.degree_spec(), u),
        ),
{
    let p = basis.degree();
    let du = if der_upper_bond <= p {
        der_upper_bond
    } else {
        p
    };
    let span = basis.get_span(u);
    let nders = basis.get_ders(u, span);
    let len = control_points.len();
    let mut ck: Vec<P> = Vec::new();
    let mut k: usize = 0;
    while k <= du
        invariant
            k <= du + 1,
            du <= p,
            p == basis.degree_spec(),
            p <= span,
            span + 1 <= control_points@.len() == len,
            is_derivative_table(nders@, basis.knots_spec(), u, span as int, p as nat),
            ck@.len() == k,
            forall|t: int|
                0 <= t < k ==> ck@[t] == weighted_sum(
                    control_points@,
                    span - p,
                    derivative_row(basis.knots_spec(), u, span as int, p as nat, t as nat),
                    (p + 1) as nat,
                ),
        decreases du + 1 - k,
    {
        ck.push(combine(control_points, span - p, &nders[k]));
        k += 1;
    }
    assert(ck@ =~= curve_ders(
        basis.knots_spec(),
        basis.degree_spec(),
        control_points@,
        du as nat,
        u,
        span as int,
    ));
    ck
}

/// The rows of a grid as sequences.
pub open spec fn rows<T>(grid: Seq<Vec<T>>) -> Seq<Seq<T>> {
    Seq::new(grid.len(), |k: int| grid[k]@)
}

/// Column `col` of a grid of control points: one point from every row.
pub open spec fn column<P>(grid: Seq<Vec<P>>, col: int) -> Seq<P> {
    Seq::new(grid.len(), |r: int| grid[r]@[col])
}

/// The contraction of a grid of control points along its rows: for each of
/// the `q + 1` columns from `col_start` on, `weights` applied to the `p + 1`
/// points of that column from row `row_start` on.
pub open spec fn contracted<R: Real, P: ControlPoint<R>>(
    grid: Seq<Vec<P>>,
    row_start: int,
    col_start: int,
    weights: Seq<R>,
    p: nat,
    q: nat,
) -> Seq<P> {
    Seq::new(
        q + 1,
        |s: int| weighted_sum(column(grid, col_start + s), row_start, weights, p + 1),
    )
}

/// The point at `(u, v)` of the surface with the given bases and grid of
/// control points, where `u` lies in span `i` and `v` in span `j`: the
/// `u` basis values applied along the rows, then the `v` basis values applied
/// to what that leaves.
pub open spec fn surface_point<R: Real, P: ControlPoint<R>>(
    u_knots: Seq<R>,
    p: nat,
    v_knots: Seq<R>,
    q: nat,
    grid: Seq<Vec<P>>,
    u: R,
    v: R,
    i: int,
    j: int,
) -> P {
    weighted_sum(
        contracted(grid, i - p, j - q, basis_values(u_knots, u, i, p), p, q),
        0,
        basis_values(v_knots, v, j, q),
        q + 1,
    )
}

/// The mixed derivative of order `k` along `u` and `l` along `v`, for
/// `k <= p` and `l <= q`: row `k` of the `u` derivative table applied along
/// the rows, then row `l` of the `v` derivative table applied to what that
/// leaves.
pub open spec fn surface_der<R: Real, P: ControlPoint<R>>(
    u_knots: Seq<R>,
    p: nat,
    v_knots: Seq<R>,
    q: nat,
    grid: Seq<Vec<P>>,
    u: R,
    v: R,
    i: int,
    j: int,
    k: nat,
    l: nat,
) -> P {
    weighted_sum(
        contracted(grid, i - p, j - q, derivative_row(u_knots, u, i, p, k), p, q),
        0,
        derivative_row(v_knots, v, j, q, l),
        q + 1,
    )
}

/// Entry `(k, l)` of the grid of surface derivatives up to the total order
/// `upper`: the mixed derivative where `k + l <= upper`, and the origin
/// elsewhere.
pub open spec fn surface_ders_entry<R: Real, P: ControlPoint<R>>(
    u_knots: Seq<R>,
    p: nat,
    v_knots: Seq<R>,
    q: nat,
    grid: Seq<Vec<P>>,
    upper: nat,
    u: R,
    v: R,
    i: int,
    j: int,
    k: nat,
    l: nat,
) -> P {
    if k + l <= upper {
        surface_der(u_knots, p, v_knots, q, grid, u, v, i, j, k, l)
    } else {
        P::zeros_spec()
    }
}

/// The grid of surface derivatives up to the total order `upper`: `p + 1`
/// rows by order along `u`, `q + 1` columns by order along `v`.
pub open spec fn surface_ders<R: Real, P: ControlPoint<R>>(
    u_knots: Seq<R>,
    p: nat,
    v_knots: Seq<R>,
    q: nat,
    grid: Seq<Vec<P>>,
    upper: nat,
    u: R,
    v: R,
    i: int,
    j: int,
) -> Seq<Seq<P>> {
    Seq::new(
        p + 1,
        |k: int|
            Seq::new(
                q + 1,
                |l: int|
                    surface_ders_entry(
                        u_knots,
                        p,
                        v_knots,
                        q,
                        grid,
                        upper,
                        u,
                        v,
                        i,
                        j,
                        k as nat,
                        l as nat,
                    ),
            ),
    )
}

/// Two bases and a grid of control points fit together: the rows are counted
/// by the `u` basis, and every row has the length that the `v` basis asks.
pub open spec fn grid_fits<R: Real, B: Basis<R>, P>(
    u_basis: &B,
    v_basis: &B,
    grid: Seq<Vec<P>>,
) -> bool {
    &&& fits(u_basis, grid.len())
    &&& fits(v_basis, grid[0]@.len())
    &&& forall|r: int| 0 <= r < grid.len() ==> (#[trigger] grid[r])@.len() == grid[0]@.len()
}

/// Tests whether two bases and a grid of control points fit together.
pub fn is_grid_fit<R: Real, B: Basis<R>, P>(
    u_basis: &B,
    v_basis: &B,
    grid: &Vec<Vec<P>>,
) -> (b: bool)
    ensures
        b == grid_fits(u_basis, v_basis, grid@),
{
    if !is_fit(u_basis, grid.len()) {
        return false;
    }
    let cols = grid[0].len();
    if !is_fit(v_basis, cols) {
        return false;
    }
    let mut r: usize = 0;
    while r < grid.len()
        invariant
            r <= grid@.len(),
            cols == grid@[0]@.len(),
            forall|t: int| 0 <= t < r ==> (#[trigger] grid@[t])@.len() == cols,
        decreases grid@.len() - r,
    {
        if grid[r].len() != cols {
            return false;
        }
        r += 1;
    }
    true
}

/// `weights` applied along the rows of one column of the grid, from row
/// `row_start` on.
fn combine_column<R: Real, P: ControlPoint<R>>(
    grid: &Vec<Vec<P>>,
    row_start: usize,
    col: usize,
    weights: &Vec<R>,
) -> (res: P)
    requires
        row_start + weights@.len() <= grid@.len(),
        forall|r: int| 0 <= r < grid@.len() ==> col < (#[trigger] grid@[r])@.len(),
    ensures
        res == weighted_sum(
            column(grid@, col as int),
            row_start as int,
            weights@,
            weights@.len(),
        ),
{
    let mut res = P::zeros();
    let len = grid.len();
    let mut k: usize = 0;
    while k < weights.len()
        invariant
            k <= weights@.len(),
            row_start + weights@.len() <= grid@.len() == len,
            forall|r: int| 0 <= r < grid@.len() ==> col < (#[trigger] grid@[r])@.len(),
            res == weighted_sum(column(grid@, col as int), row_start as int, weights@, k as nat),
        decreases weights@.len() - k,
    {
        res = res.plus(grid[row_start + k][col].times(weights[k]));
        k += 1;
    }
    res
}

/// `weights` applied along the rows of the `q + 1` columns from `col_start`
/// on.
fn contract<R: Real, P: ControlPoint<R>>(
    grid: &Vec<Vec<P>>,
    row_start: usize,
    col_start: usize,
    weights: &Vec<R>,
    q: usize,
) -> (temp: Vec<P>)
    requires
        weights@.len() >= 1,
        row_start + weights@.len() <= grid@.len(),
        forall|r: int| 0 <= r < grid@.len() ==> col_start + q < (#[trigger] grid@[r])@.len(),
    ensures
        temp@ == contracted(
            grid@,
            row_start as int,
            col_start as int,
            weights@,
            (weights@.len() - 1) as nat,
            q as nat,
        ),
{
    let cols = grid[0].len();
    let mut temp: Vec<P> = Vec::new();
    let mut s: usize = 0;
    while s <= q
        invariant
            s <= q + 1,
            weights@.len() >= 1,
            row_start + weights@.len() <= grid@.len(),
            col_start + q < cols,
            forall|r: int| 0 <= r < grid@.len() ==> col_start + q < (#[trigger] grid@[r])@.len(),
            temp@.len() == s,
            forall|t: int|
                0 <= t < s ==> temp@[t] == weighted_sum(
                    column(grid@, col_start + t),
                    row_start as int,
                    weights@,
                    weights@.len(),
                ),
        decreases q + 1 - s,
    {
        temp.push(combine_column(grid, row_start, col_start + s, weights));
        s += 1;
    }
    assert(temp@ =~= contracted(
        grid@,
        row_start as int,
        col_start as int,
        weights@,
        (weights@.len() - 1) as nat,
        q as nat,
    ));
    temp
}

/// The point of a surface at the parameters `(u, v)`.
pub fn get_surface_point<R: Real, B: Basis<R>, P: ControlPoint<R>>(
    u_basis: &B,
    v_basis: &B,
    control_points: &Vec<Vec<P>>,
    u: R,
    v: R,
) -> (res: P)
    requires
        grid_fits(u_basis, v_basis, control_points@),
        in_domain(u_basis.knots_spec(), u),
        in_domain(v_basis.knots_spec(), v),
    ensures
        res == surface_point(
            u_basis.knots_spec(),
            u_basis.degree_spec(),
            v_basis.knots_spec(),
            v_basis.degree_spec(),
            control_points@,
            u,
            v,
            span_of(u_basis.knots_spec(), u_basis.degree_spec(), u),
            span_of(v_basis.knots_spec(), v_basis.degree_spec(), v),
        ),
{
    let p = u_basis.degree();
    let i = u_basis.get_span(u);
    let u_values = u_basis.get_values(u, i);
    let q = v_basis.degree();
    let j = v_basis.get_span(v);
    let v_values = v_basis.get_values(v, j);
    let temp = contract(control_points, i - p, j - q, &u_values, q);
    combine(&temp, 0, &v_values)
}

/// The mixed derivatives of a surface at `(u, v)` up to the total order
/// `der_upper_bond`, as a grid of `p + 1` by `q + 1` entries; the entries
/// beyond that order are the origin.
pub fn get_surface_ders<R: Real, B: Basis<R>, P: ControlPoint<R>>(
    u_basis: &B,
    v_basis: &B,
    control_points: &Vec<Vec<P>>,
    der_upper_bond: usize,
    u: R,
    v: R,
) -> (output: Vec<Vec<P>>)
    requires
        grid_fits(u_basis, v_basis, control_points@),
        in_domain(u_basis.knots_spec(), u),
        in_domain(v_basis.knots_spec(), v),
    ensures
        rows(output@) == surface_ders(
            u_basis.knots_spec(),
            u_basis.degree_spec(),
            v_basis.knots_spec(),
            v_basis.degree_spec(),
            control_points@,
            der_upper_bond as nat,
            u,
            v,
            span_of(u_basis.knots_spec(), u_basis.degree_spec(), u),
            span_of(v_basis.knots_spec(), v_basis.degree_spec(), v),
        ),
{
    let p = u_basis.degree();
    let q = v_basis.degree();
    let uspan = u_basis.get_span(u);
    let vspan = v_basis.get_span(v);
    let u_basis_ders = u_basis.get_ders(u, uspan);
    let v_basis_ders = v_basis.get_ders(v, vspan);
    let count = control_points.len();
    let cols = control_points[0].len();
    let mut output: Vec<Vec<P>> = Vec::new();
    let mut k: usize = 0;
    while k <= p
        invariant
            k <= p + 1,
            p == u_basis.degree_spec(),
            q == v_basis.degree_spec(),
            p <= uspan < count == control_points@.len(),
            q <= vspan < cols,
            forall|r: int|
                0 <= r < control_points@.len() ==> (#[trigger] control_points@[r])@.len() == cols,
            is_derivative_table(u_basis_ders@, u_basis.knots_spec(), u, uspan as int, p as nat),
            is_derivative_table(v_basis_ders@, v_basis.knots_spec(), v, vspan as int, q as nat),
            output@.len() == k,
            forall|a: int| 0 <= a < k ==> (#[trigger] output@[a])@.len() == q + 1,
            forall|a: int, b: int|
                0 <= a < k && 0 <= b <= q ==> #[trigger] output@[a]@[b] == surface_ders_entry(
                    u_basis.knots_spec(),
                    p as nat,
                    v_basis.knots_spec(),
                    q as nat,
                    control_points@,
                    der_upper_bond as nat,
                    u,
                    v,
                    uspan as int,
                    vspan as int,
                    a as nat,
                    b as nat,
                ),
        decreases p + 1 - k,
    {
        let mut row: Vec<P> = Vec::new();
        if k <= der_upper_bond {
            let temp = contract(control_points, uspan - p, vspan - q, &u_basis_ders[k], q);
            let mut l: usize = 0;
            while l <= q
                invariant
                    l <= q + 1,
                    k <= p,
                    k <= der_upper_bond,
                    p == u_basis.degree_spec(),
                    q == v_basis.degree_spec(),
                    q < cols,
                    is_derivative_table(
                        v_basis_ders@,
                        v_basis.knots_spec(),
                        v,
                        vspan as int,
                        q as nat,
                    ),
                    temp@ == contracted(
                        control_points@,
                        uspan - p,
                        vspan - q,
                        derivative_row(u_basis.knots_spec(), u, uspan as int, p as nat, k as nat),
                        p as nat,
                        q as nat,
                    ),
                    row@.len() == l,
                    forall|b: int|
                        0 <= b < l ==> row@[b] == surface_ders_entry(
                            u_basis.knots_spec(),
                            p as nat,
                            v_basis.knots_spec(),
                            q as nat,
                            control_points@,
                            der_upper_bond as nat,
                            u,
                            v,
                            uspan as int,
                            vspan as int,
                            k as nat,
                            b as nat,
                        ),
                decreases q + 1 - l,
            {
                if l <= der_upper_bond - k {
                    row.push(combine(&temp, 0, &v_basis_ders[l]));
                } else {
                    row.push(P::zeros());
                }
                l += 1;
            }
        } else {
            row = repeated(P::zeros(), q + 1);
        }
        output.push(row);
        k += 1;
    }
    assert(rows(output@) =~~= surface_ders(
        u_basis.knots_spec(),
        p as nat,
        v_basis.knots_spec(),
        q as nat,
        control_points@,
        der_upper_bond as nat,
        u,
        v,
        uspan as int,
        vspan as int,
    ));
    output
}

/// The error that a pair of parameters outside of the domain of a surface
/// gives: that of `u`, or else that of `v`.
pub open spec fn surface_domain_error<R: Real>(
    u_knots: Seq<R>,
    u: R,
    v_knots: Seq<R>,
    v: R,
) -> Option<BasisFunctionError> {
    match domain_error(u_knots, u) {
        Some(e) => Some(e),
        None => domain_error(v_knots, v),
    }
}

/// The point of a curve at the parameter `u`, or the error that tells why
/// `u` is outside of the domain.
pub fn try_get_curve_point<R: Real, B: Basis<R>, P: ControlPoint<R>>(
    basis: &B,
    control_points: &Vec<P>,
    u: R,
) -> (res: Result<P, BasisFunctionError>)
    requires
        fits(basis, control_points@.len()),
    ensures
        match domain_error(basis.knots_spec(), u) {
            Some(e) => res == Err::<P, BasisFunctionError>(e),
            None => res == Ok::<P, BasisFunctionError>(
                curve_point(
                    basis.knots_spec(),
                    basis.degree_spec(),
                    control_points@,
                    u,
                    span_of(basis.knots_spec(), basis.degree_spec(), u),
                ),
            ),
        },
{
    match basis.knots().find_span(basis.degree(), u) {
        Err(e) => Err(e),
        Ok(_) => Ok(get_curve_point(basis, control_points, u)),
    }
}

/// The derivatives of a curve at `u`, of the orders from 0 up to the smaller
/// of `der_upper_bond` and the degree, or the error that tells why `u` is
/// outside of the domain.
pub fn try_get_curve_ders<R: Real, B: Basis<R>, P: ControlPoint<R>>(
    basis: &B,
    control_points: &Vec<P>,
    der_upper_bond: usize,
    u: R,
) -> (res: Result<Vec<P>, BasisFunctionError>)
    requires
        fits(basis, control_points@.len()),
    ensures
        match domain_error(basis.knots_spec(), u) {
            Some(e) => res == Err::<Vec<P>, BasisFunctionError>(e),
            None => res is Ok && res->Ok_0@ == curve_ders(
                basis.knots_spec(),
                basis.degree_spec(),
                control_points@,
                capped(der_upper_bond, basis.degree_spec()),
                u,
                span_of(basis.knots_spec(), basis.degree_spec(), u),
            ),
        },
{
    match basis.knots().find_span(basis.degree(), u) {
        Err(e) => Err(e),
        Ok(_) => Ok(get_curve_ders(basis, control_points, der_upper_bond, u)),
    }
}

/// The point of a surface at the parameters `(u, v)`, or the error that
/// tells why they are outside of the domain.
pub fn try_get_surface_point<R: Real, B: Basis<R>, P: ControlPoint<R>>(
    u_basis: &B,
    v_basis: &B,
    control_points: &Vec<Vec<P>>,
    u: R,
    v: R,
) -> (res: Result<P, BasisFunctionError>)
    requires
        grid_fits(u_basis, v_basis, control_points@),
    ensures
        match surface_domain_error(u_basis.knots_spec(), u, v_basis.knots_spec(), v) {
            Some(e) => res == Err::<P, BasisFunctionError>(e),
            None => res == Ok::<P, BasisFunctionError>(
                surface_point(
                    u_basis.knots_spec(),
                    u_basis.degree_spec(),
                    v_basis.knots_spec(),
                    v_basis.degree_spec(),
                    control_points@,
                    u,
                    v,
                    span_of(u_basis.knots_spec(), u_basis.degree_spec(), u),
                    span_of(v_basis.knots_spec(), v_basis.degree_spec(), v),
                ),
            ),
        },
{
    match u_basis.knots().find_span(u_basis.degree(), u) {
        Err(e) => Err(e),
        Ok(_) => match v_basis.knots().find_span(v_basis.degree(), v) {
            Err(e) => Err(e),
            Ok(_) => Ok(get_surface_point(u_basis, v_basis, control_points, u, v)),
        },
    }
}

/// The mixed derivatives of a surface at `(u, v)` up to the total order
/// `der_upper_bond`, or the error that tells why the parameters are outside
/// of the domain.
pub fn try_get_surface_ders<R: Real, B: Basis<R>, P: ControlPoint<R>>(
    u_basis: &B,
    v_basis: &B,
    control_points: &Vec<Vec<P>>,
    der_upper_bond: usize,
    u: R,
    v: R,
) -> (res: Result<Vec<Vec<P>>, BasisFunctionError>)
    requires
        grid_fits(u_basis, v_basis, control_points@),
    ensures
        match surface_domain_error(u_basis.knots_spec(), u, v_basis.knots_spec(), v) {
            Some(e) => res == Err::<Vec<Vec<P>>, BasisFunctionError>(e),
            None => res is Ok && rows(res->Ok_0@) == surface_ders(
                u_basis.knots_spec(),
                u_basis.degree_spec(),
                v_basis.knots_spec(),
                v_basis.degree_spec(),
                control_points@,
                der_upper_bond as nat,
                u,
                v,
                span_of(u_basis.knots_spec(), u_basis.degree_spec(), u),
                span_of(v_basis.knots_spec(), v_basis.degree_spec(), v),
            ),
        },
{
    match u_basis.knots().find_span(u_basis.degree(), u) {
        Err(e) => Err(e),
        Ok(_) => match v_basis.knots().find_span(v_basis.degree(), v) {
            Err(e) => Err(e),
            Ok(_) => Ok(get_surface_ders(u_basis, v_basis, control_points, der_upper_bond, u, v)),
        },
    }
}

} // verus!
