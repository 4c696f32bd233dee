//! The rational corrector: from the derivatives of a curve or surface in
//! homogeneous space to its derivatives in Euclidean space.
use vstd::prelude::*;

use crate::basics::algorithm::{
    capped, curve_ders, fits, get_curve_ders, get_surface_ders, grid_fits, rows,
    surface_domain_error, surface_ders,
};
use crate::basics::point::{ControlPoint, HomoControlPoint};
use crate::basis_function::knots::{domain_error, in_domain, span_of};
use crate::basis_function::{Basis, BasisFunctionError};
use crate::scalar::Real;

verus! {

/// The binomial coefficient `n` over `k`, by Pascal's rule.
pub open spec fn binomial_spec(n: nat, k: nat) -> nat
    decreases n,
{
    if k == 0 {
        1
    } else if n == 0 {
        0
    } else {
        binomial_spec((n - 1) as nat, (k - 1) as nat) + binomial_spec((n - 1) as nat, k)
    }
}

/// The largest `n` whose binomial coefficients are all computed without
/// overflow, whether the machine word has 32 or 64 bits.
pub const MAX_BINOMIAL: usize = 34;

/// Calls `num::integer::binomial`, which computes the binomial coefficient
/// in exact integer arithmetic. Its documentation rules out overflow for
/// every `k` as long as `n` is at most 34 in 32 bits (67 in 64 bits); the
/// contract claims that the result is then the coefficient that Pascal's
/// rule defines, which is zero for `k > n`.
#[verifier::external_body]
fn binomial(n: usize, k: usize) -> (r: usize)
    requires
        n <= MAX_BINOMIAL,
    ensures
        r == binomial_spec(n as nat, k as nat),
{
    num::integer::binomial(n, k)
}

/// The weighted points of a sequence of homogeneous points.
pub open spec fn weighted_parts<R: Real, P: ControlPoint<R>>(
    homo: Seq<HomoControlPoint<R, P>>,
) -> Seq<P> {
    Seq::new(homo.len(), |k: int| homo[k].control_point)
}

/// The weights of a sequence of homogeneous points.
pub open spec fn weight_parts<R: Real, P: ControlPoint<R>>(
    homo: Seq<HomoControlPoint<R, P>>,
) -> Seq<R> {
    Seq::new(homo.len(), |k: int| homo[k].weight)
}

/// What is left of the numerator of the `k`-th Euclidean derivative after
/// its first `n` correction terms: `a[k]` less, for `i` in `1 ..= n`,
/// `C(k - i) * binomial(k, i) * w[i]`, subtracted in that order.
pub open spec fn rational_rest<R: Real, P: ControlPoint<R>>(
    a: Seq<P>,
    w: Seq<R>,
    k: nat,
    n: nat,
) -> P
    decreases k, n,
{
    if n == 0 || n > k {
        a[k as int]
    } else {
        rational_rest(a, w, k, (n - 1) as nat).minus_spec(
            rational_der(a, w, (k - n) as nat).times_spec(
                R::from_usize_spec(binomial_spec(k, n) as usize),
            ).times_spec(w[n as int]),
        )
    }
}

/// The `k`-th derivative `C(k)` in Euclidean space of a rational curve whose
/// homogeneous derivatives are `a` (weighted point) and `w` (weight):
/// `C(0) = a[0] / w[0]`, and
/// `C(k) = (a[k] - sum of binomial(k, i) * w[i] * C(k - i) for i in 1 ..= k) / w[0]`.
pub open spec fn rational_der<R: Real, P: ControlPoint<R>>(a: Seq<P>, w: Seq<R>, k: nat) -> P
    decreases k, k + 1,
{
    rational_rest(a, w, k, k).over_spec(w[0])
}

/// The Euclidean derivatives of all the orders that `a` and `w` hold.
pub open spec fn rational_ders<R: Real, P: ControlPoint<R>>(a: Seq<P>, w: Seq<R>) -> Seq<P> {
    Seq::new(a.len(), |k: int| rational_der(a, w, k as nat))
}

/// Reconstructs the derivatives of a rational curve in Euclidean space from
/// the derivatives `a_ders` of its weighted point and `w_ders` of its weight,
/// by back-substitution from the lowest order.
///
/// The weight `w_ders[0]` at the point of evaluation is divided by as it is;
/// for a weight of zero the result is whatever the scalar's division gives.
pub fn correct_rational_ders<R: Real, P: ControlPoint<R>>(a_ders: &Vec<P>, w_ders: &Vec<R>) -> (ck:
    Vec<P>)
    requires
        a_ders@.len() == w_ders@.len(),
        a_ders@.len() <= MAX_BINOMIAL + 1,
    ensures
        ck@ == rational_ders(a_ders@, w_ders@),
{
    let len = a_ders.len();
    let mut ck: Vec<P> = Vec::new();
    let mut k: usize = 0;
    while k < len
        invariant
            k <= len,
            len == a_ders@.len(),
            len == w_ders@.len(),
            len <= MAX_BINOMIAL + 1,
            ck@.len() == k,
            forall|t: int| 0 <= t < k ==> ck@[t] == rational_der(a_ders@, w_ders@, t as nat),
        decreases len - k,
    {
        let mut v = a_ders[k];
        let mut i: usize = 1;
        while i <= k
            invariant
                1 <= i <= k + 1,
                k < len,
                len == a_ders@.len(),
                len == w_ders@.len(),
                len <= MAX_BINOMIAL + 1,
                ck@.len() == k,
                forall|t: int| 0 <= t < k ==> ck@[t] == rational_der(a_ders@, w_ders@, t as nat),
                v == rational_rest(a_ders@, w_ders@, k as nat, (i - 1) as nat),
            decreases k + 1 - i,
        {
            v = v.minus(ck[k - i].times(R::from_usize(binomial(k, i))).times(w_ders[i]));
            i += 1;
        }
        ck.push(v.over(w_ders[0]));
        k += 1;
    }
    assert(ck@ =~= rational_ders(a_ders@, w_ders@));
    ck
}

/// The derivatives in Euclidean space of a rational curve at `u`, of the
/// orders from 0 up to the smaller of `der_upper_bond` and the degree.
pub fn get_rational_ders<R: Real, B: Basis<R>, P: ControlPoint<R>>(
    basis: &B,
    homo_control_points: &Vec<HomoControlPoint<R, P>>,
    der_upper_bond: usize,
    u: R,
) -> (ck: Vec<P>)
    requires
        fits(basis, homo_control_points@.len()),
        in_domain(basis.knots_spec(), u),
        capped(der_upper_bond, basis.degree_spec()) <= MAX_BINOMIAL,
    ensures
        ({
            let homo_ders = curve_ders(
                basis.knots_spec(),
                basis.degree_spec(),
                homo_control_points@,
                capped(der_upper_bond, basis.degree_spec()),
                u,
                span_of(basis.knots_spec(), basis.degree_spec(), u),
            );
            ck@ == rational_ders(weighted_parts(homo_ders), weight_parts(homo_ders))
        }),
{
    let p = basis.degree();
    let du = if der_upper_bond <= p {
        der_upper_bond
    } else {
        p
    };
    let homo_ders = get_curve_ders(basis, homo_control_points, du, u);
    let mut a_ders: Vec<P> = Vec::new();
    let mut w_ders: Vec<R> = Vec::new();
    let mut k: usize = 0;
    while k < homo_ders.len()
        invariant
            k <= homo_ders@.len(),
            a_ders@.len() == k,
            w_ders@.len() == k,
            forall|t: int| 0 <= t < k ==> a_ders@[t] == homo_ders@[t].control_point,
            forall|t: int| 0 <= t < k ==> w_ders@[t] == homo_ders@[t].weight,
        decreases homo_ders@.len() - k,
    {
        let (a, w) = homo_ders[k].split();
        a_ders.push(a);
        w_ders.push(w);
        k += 1;
    }
    proof {
        assert(a_ders@ =~= weighted_parts(homo_ders@));
        assert(w_ders@ =~= weight_parts(homo_ders@));
    }
    correct_rational_ders(&a_ders, &w_ders)
}

/// The binomial coefficient `n` over `k` as a scalar.
pub open spec fn binomial_scalar<R: Real>(n: nat, k: nat) -> R {
    R::from_usize_spec(binomial_spec(n, k) as usize)
}

/// The cross term of the surface correction for one `i >= 1`: the sum, for
/// `j` in `1 ..= n`, of `S(k - i, l - j) * binomial(l, j) * w(i, j)`, added
/// from the left onto the origin.
pub open spec fn surface_cross<R: Real, P: ControlPoint<R>>(
    homo: Seq<Seq<HomoControlPoint<R, P>>>,
    k: nat,
    l: nat,
    i: nat,
    n: nat,
) -> P
    decreases k + l, 0nat, n,
{
    if n == 0 || n > l || i == 0 || i > k {
        P::zeros_spec()
    } else {
        surface_cross(homo, k, l, i, (n - 1) as nat).plus_spec(
            surface_rational_der(homo, (k - i) as nat, (l - n) as nat).times_spec(
                binomial_scalar::<R>(l, n),
            ).times_spec(homo[i as int][n as int].weight),
        )
    }
}

/// What is left of the numerator of `S(k, l)` after the first `n` terms of
/// its history along `v`: `A(k, l)` less, for `j` in `1 ..= n`,
/// `S(k, l - j) * binomial(l, j) * w(0, j)`.
pub open spec fn surface_rest_v<R: Real, P: ControlPoint<R>>(
    homo: Seq<Seq<HomoControlPoint<R, P>>>,
    k: nat,
    l: nat,
    n: nat,
) -> P
    decreases k + l, 1nat, n,
{
    if n == 0 || n > l {
        homo[k as int][l as int].control_point
    } else {
        surface_rest_v(homo, k, l, (n - 1) as nat).minus_spec(
            surface_rational_der(homo, k, (l - n) as nat).times_spec(
                binomial_scalar::<R>(l, n),
            ).times_spec(homo[0][n as int].weight),
        )
    }
}

/// What is left of the numerator of `S(k, l)` after all of its history along
/// `v` and the first `m` steps along `u`: each step `i` takes away
/// `S(k - i, l) * binomial(k, i) * w(i, 0)` and then the cross term of `i`
/// times `binomial(k, i)`.
pub open spec fn surface_rest_u<R: Real, P: ControlPoint<R>>(
    homo: Seq<Seq<HomoControlPoint<R, P>>>,
    k: nat,
    l: nat,
    m: nat,
) -> P
    decreases k + l, 2nat, m,
{
    if m == 0 || m > k {
        surface_rest_v(homo, k, l, l)
    } else {
        surface_rest_u(homo, k, l, (m - 1) as nat).minus_spec(
            surface_rational_der(homo, (k - m) as nat, l).times_spec(
                binomial_scalar::<R>(k, m),
            ).times_spec(homo[m as int][0].weight),
        ).minus_spec(surface_cross(homo, k, l, m, l).times_spec(binomial_scalar::<R>(k, m)))
    }
}

/// The mixed derivative `S(k, l)` in Euclidean space of a rational surface
/// whose homogeneous derivatives are `homo`: the numerator `A(k, l)` less its
/// history along `v`, along `u` and across, over the weight `w(0, 0)`.
pub open spec fn surface_rational_der<R: Real, P: ControlPoint<R>>(
    homo: Seq<Seq<HomoControlPoint<R, P>>>,
    k: nat,
    l: nat,
) -> P
    decreases k + l, 3nat, 0nat,
{
    surface_rest_u(homo, k, l, k).over_spec(homo[0][0].weight)
}

/// Entry `(k, l)` of the grid of Euclidean surface derivatives up to the
/// total order `d`: the mixed derivative where `k + l <= d`, and the origin
/// elsewhere.
pub open spec fn surface_rational_entry<R: Real, P: ControlPoint<R>>(
    homo: Seq<Seq<HomoControlPoint<R, P>>>,
    d: nat,
    k: nat,
    l: nat,
) -> P {
    if k + l <= d {
        surface_rational_der(homo, k, l)
    } else {
        P::zeros_spec()
    }
}

/// The grid of Euclidean surface derivatives up to the total order `d`, of
/// the same shape as the grid `homo` of derivatives in homogeneous space:
/// one row for each order along `u`, one column for each along `v`.
pub open spec fn surface_rational_ders<R: Real, P: ControlPoint<R>>(
    homo: Seq<Seq<HomoControlPoint<R, P>>>,
    d: nat,
) -> Seq<Seq<P>> {
    Seq::new(
        homo.len(),
        |k: int|
            Seq::new(homo[k].len(), |l: int| surface_rational_entry(homo, d, k as nat, l as nat)),
    )
}

/// The grid has at least one row, and every row has the same number of
/// entries, at least one.
pub open spec fn is_grid<T>(grid: Seq<Vec<T>>) -> bool {
    &&& grid.len() >= 1
    &&& grid[0]@.len() >= 1
    &&& forall|k: int| 0 <= k < grid.len() ==> (#[trigger] grid[k])@.len() == grid[0]@.len()
}

/// Reconstructs the mixed derivatives of a rational surface in Euclidean
/// space from its derivatives `homo_ders` in homogeneous space, for the
/// orders `k` along `u` and `l` along `v` with `k + l <= d` that the grid
/// holds. Every cell takes its history along `v`, along `u` and the cross
/// terms away from the numerator before it is divided by the weight.
///
/// The weight `w(0, 0)` at the point of evaluation is divided by as it is.
pub fn correct_rational_surface_ders<R: Real, P: ControlPoint<R>>(
    homo_ders: &Vec<Vec<HomoControlPoint<R, P>>>,
    d: usize,
) -> (output: Vec<Vec<P>>)
    requires
        is_grid(homo_ders@),
        capped(d, (homo_ders@.len() - 1) as nat) <= MAX_BINOMIAL,
        capped(d, (homo_ders@[0]@.len() - 1) as nat) <= MAX_BINOMIAL,
    ensures
        rows(output@) == surface_rational_ders(rows(homo_ders@), d as nat),
{
    let count = homo_ders.len();
    let cols = homo_ders[0].len();
    let w00 = homo_ders[0][0].split().1;
    let mut output: Vec<Vec<P>> = Vec::new();
    let mut k: usize = 0;
    while k < count
        invariant
            k <= count,
            is_grid(homo_ders@),
            count == homo_ders@.len(),
            cols == homo_ders@[0]@.len(),
            d <= MAX_BINOMIAL || count <= MAX_BINOMIAL + 1,
            d <= MAX_BINOMIAL || cols <= MAX_BINOMIAL + 1,
            w00 == homo_ders@[0]@[0].weight,
            output@.len() == k,
            forall|a: int| 0 <= a < k ==> (#[trigger] output@[a])@.len() == cols,
            forall|a: int, b: int|
                0 <= a < k && 0 <= b < cols ==> #[trigger] output@[a]@[b]
                    == surface_rational_entry(rows(homo_ders@), d as nat, a as nat, b as nat),
        decreases count - k,
    {
        let mut row: Vec<P> = Vec::new();
        let mut l: usize = 0;
        while l < cols
            invariant
                l <= cols,
                k < count,
                is_grid(homo_ders@),
                count == homo_ders@.len(),
                cols == homo_ders@[0]@.len(),
                d <= MAX_BINOMIAL || count <= MAX_BINOMIAL + 1,
                d <= MAX_BINOMIAL || cols <= MAX_BINOMIAL + 1,
                w00 == homo_ders@[0]@[0].weight,
                output@.len() == k,
                forall|a: int| 0 <= a < k ==> (#[trigger] output@[a])@.len() == cols,
                forall|a: int, b: int|
                    0 <= a < k && 0 <= b < cols ==> #[trigger] output@[a]@[b]
                        == surface_rational_entry(rows(homo_ders@), d as nat, a as nat, b as nat),
                row@.len() == l,
                forall|b: int|
                    0 <= b < l ==> row@[b] == surface_rational_entry(
                        rows(homo_ders@),
                        d as nat,
                        k as nat,
                        b as nat,
                    ),
            decreases cols - l,
        {
            if k <= d && l <= d - k {
                let mut v = homo_ders[k][l].split().0;
                let mut j: usize = 1;
                while j <= l
                    invariant
                        1 <= j <= l + 1,
                        k + l <= d,
                        k < count,
                        l < cols,
                        is_grid(homo_ders@),
                        count == homo_ders@.len(),
                        cols == homo_ders@[0]@.len(),
                        d <= MAX_BINOMIAL || cols <= MAX_BINOMIAL + 1,
                        row@.len() == l,
                        forall|b: int|
                            0 <= b < l ==> row@[b] == surface_rational_entry(
                                rows(homo_ders@),
                                d as nat,
                                k as nat,
                                b as nat,
                            ),
                        v == surface_rest_v(rows(homo_ders@), k as nat, l as nat, (j - 1) as nat),
                    decreases l + 1 - j,
                {
                    let w = homo_ders[0][j].split().1;
                    v = v.minus(row[l - j].times(R::from_usize(binomial(l, j))).times(w));
                    j += 1;
                }
                let mut i: usize = 1;
                while i <= k
                    invariant
                        1 <= i <= k + 1,
                        k + l <= d,
                        k < count,
                        l < cols,
                        is_grid(homo_ders@),
                        count == homo_ders@.len(),
                        cols == homo_ders@[0]@.len(),
                        d <= MAX_BINOMIAL || count <= MAX_BINOMIAL + 1,
                        d <= MAX_BINOMIAL || cols <= MAX_BINOMIAL + 1,
                        output@.len() == k,
                        forall|a: int| 0 <= a < k ==> (#[trigger] output@[a])@.len() == cols,
                        forall|a: int, b: int|
                            0 <= a < k && 0 <= b < cols ==> #[trigger] output@[a]@[b]
                                == surface_rational_entry(
                                rows(homo_ders@),
                                d as nat,
                                a as nat,
                                b as nat,
                            ),
                        v == surface_rest_u(rows(homo_ders@), k as nat, l as nat, (i - 1) as nat),
                    decreases k + 1 - i,
                {
                    let wi0 = homo_ders[i][0].split().1;
                    v = v.minus(output[k - i][l].times(R::from_usize(binomial(k, i))).times(wi0));
                    let mut v2 = P::zeros();
                    let mut j: usize = 1;
                    while j <= l
                        invariant
                            1 <= j <= l + 1,
                            1 <= i <= k,
                            k + l <= d,
                            k < count,
                            l < cols,
                            is_grid(homo_ders@),
                            count == homo_ders@.len(),
                            cols == homo_ders@[0]@.len(),
                            d <= MAX_BINOMIAL || cols <= MAX_BINOMIAL + 1,
                            output@.len() == k,
                            forall|a: int| 0 <= a < k ==> (#[trigger] output@[a])@.len() == cols,
                            forall|a: int, b: int|
                                0 <= a < k && 0 <= b < cols ==> #[trigger] output@[a]@[b]
                                    == surface_rational_entry(
                                    rows(homo_ders@),
                                    d as nat,
                                    a as nat,
                                    b as nat,
                                ),
                            v2 == surface_cross(
                                rows(homo_ders@),
                                k as nat,
                                l as nat,
                                i as nat,
                                (j - 1) as nat,
                            ),
                        decreases l + 1 - j,
                    {
                        let wij = homo_ders[i][j].split().1;
                        v2 = v2.plus(
                            output[k - i][l - j].times(R::from_usize(binomial(l, j))).times(wij),
                        );
                        j += 1;
                    }
                    v = v.minus(v2.times(R::from_usize(binomial(k, i))));
                    i += 1;
                }
                row.push(v.over(w00));
            } else {
                row.push(P::zeros());
            }
            l += 1;
        }
        output.push(row);
        k += 1;
    }
    assert(rows(output@) =~~= surface_rational_ders(rows(homo_ders@), d as nat));
    output
}

/// The mixed derivatives in Euclidean space of a rational surface at
/// `(u, v)` up to the total order `der_upper_bond`, as a grid of `p + 1` by
/// `q + 1` entries; the entries beyond that order are the origin.
pub fn get_rational_surface_ders<R: Real, B: Basis<R>, P: ControlPoint<R>>(
    u_basis: &B,
    v_basis: &B,
    homo_control_points: &Vec<Vec<HomoControlPoint<R, P>>>,
    der_upper_bond: usize,
    u: R,
    v: R,
) -> (ders: Vec<Vec<P>>)
    requires
        grid_fits(u_basis, v_basis, homo_control_points@),
        in_domain(u_basis.knots_spec(), u),
        in_domain(v_basis.knots_spec(), v),
        capped(der_upper_bond, u_basis.degree_spec()) <= MAX_BINOMIAL,
        capped(der_upper_bond, v_basis.degree_spec()) <= MAX_BINOMIAL,
    ensures
        rows(ders@) == surface_rational_ders(
            surface_ders(
                u_basis.knots_spec(),
                u_basis.degree_spec(),
                v_basis.knots_spec(),
                v_basis.degree_spec(),
                homo_control_points@,
                der_upper_bond as nat,
                u,
                v,
                span_of(u_basis.knots_spec(), u_basis.degree_spec(), u),
                span_of(v_basis.knots_spec(), v_basis.degree_spec(), v),
            ),
            der_upper_bond as nat,
        ),
{
    let homo_ders = get_surface_ders(u_basis, v_basis, homo_control_points, der_upper_bond, u, v);
    proof {
        let grid = surface_ders(
            u_basis.knots_spec(),
            u_basis.degree_spec(),
            v_basis.knots_spec(),
            v_basis.degree_spec(),
            homo_control_points@,
            der_upper_bond as nat,
            u,
            v,
            span_of(u_basis.knots_spec(), u_basis.degree_spec(), u),
            span_of(v_basis.knots_spec(), v_basis.degree_spec(), v),
        );
        assert(rows(homo_ders@).len() == homo_ders@.len());
        assert(grid.len() == u_basis.degree_spec() + 1);
        assert forall|k: int| 0 <= k < homo_ders@.len() implies (#[trigger] homo_ders@[k])@.len()
            == v_basis.degree_spec() + 1 by {
            assert(rows(homo_ders@)[k] == grid[k]);
            assert(rows(homo_ders@)[k] == homo_ders@[k]@);
            assert(grid[k].len() == v_basis.degree_spec() + 1);
        }
    }
    correct_rational_surface_ders(&homo_ders, der_upper_bond)
}

/// The derivatives in Euclidean space of a rational curve at `u`, or the
/// error that tells why `u` is outside of the domain.
pub fn try_get_rational_ders<R: Real, B: Basis<R>, P: ControlPoint<R>>(
    basis: &B,
    homo_control_points: &Vec<HomoControlPoint<R, P>>,
    der_upper_bond: usize,
    u: R,
) -> (res: Result<Vec<P>, BasisFunctionError>)
    requires
        fits(basis, homo_control_points@.len()),
        capped(der_upper_bond, basis.degree_spec()) <= MAX_BINOMIAL,
    ensures
        match domain_error(basis.knots_spec(), u) {
            Some(e) => res == Err::<Vec<P>, BasisFunctionError>(e),
            None => {
                let homo_ders = curve_ders(
                    basis.knots_spec(),
                    basis.degree_spec(),
                    homo_control_points@,
                    capped(der_upper_bond, basis.degree_spec()),
                    u,
                    span_of(basis.knots_spec(), basis.degree_spec(), u),
                );
                res is Ok && res->Ok_0@ == rational_ders(
                    weighted_parts(homo_ders),
                    weight_parts(homo_ders),
                )
            },
        },
{
    match basis.knots().find_span(basis.degree(), u) {
        Err(e) => Err(e),
        Ok(_) => Ok(get_rational_ders(basis, homo_control_points, der_upper_bond, u)),
    }
}

/// The mixed derivatives in Euclidean space of a rational surface at
/// `(u, v)`, or the error that tells why the parameters are outside of the
/// domain.
pub fn try_get_rational_surface_ders<R: Real, B: Basis<R>, P: ControlPoint<R>>(
    u_basis: &B,
    v_basis: &B,
    homo_control_points: &Vec<Vec<HomoControlPoint<R, P>>>,
    der_upper_bond: usize,
    u: R,
    v: R,
) -> (res: Result<Vec<Vec<P>>, BasisFunctionError>)
    requires
        grid_fits(u_basis, v_basis, homo_control_points@),
        capped(der_upper_bond, u_basis.degree_spec()) <= MAX_BINOMIAL,
        capped(der_upper_bond, v_basis.degree_spec()) <= MAX_BINOMIAL,
    ensures
        match surface_domain_error(u_basis.knots_spec(), u, v_basis.knots_spec(), v) {
            Some(e) => res == Err::<Vec<Vec<P>>, BasisFunctionError>(e),
            None => res is Ok && rows(res->Ok_0@) == surface_rational_ders(
                surface_ders(
                    u_basis.knots_spec(),
                    u_basis.degree_spec(),
                    v_basis.knots_spec(),
                    v_basis.degree_spec(),
                    homo_control_points@,
                    der_upper_bond as nat,
                    u,
                    v,
                    span_of(u_basis.knots_spec(), u_basis.degree_spec(), u),
                    span_of(v_basis.knots_spec(), v_basis.degree_spec(), v),
                ),
                der_upper_bond as nat,
            ),
        },
{
    match u_basis.knots().find_span(u_basis.degree(), u) {
        Err(e) => Err(e),
        Ok(_) => match v_basis.knots().find_span(v_basis.degree(), v) {
            Err(e) => Err(e),
            Ok(_) => Ok(
                get_rational_surface_ders(
                    u_basis,
                    v_basis,
                    homo_control_points,
                    der_upper_bond,
                    u,
                    v,
                ),
            ),
        },
    }
}

} // verus!
