//! What the evaluation computes where the scalar arithmetic is exact.
//!
//! The evaluation is stated over a scalar whose operations may round or
//! fail. Under an interpretation of the scalars as real numbers that every
//! defined result respects without rounding, the computed values obey the
//! identities of the spline functions themselves wherever they are defined;
//! with rounding they obey them approximately.
use vstd::prelude::*;

pub mod algebra;

use crate::basics::algorithm::{blend, curve_point, weighted_sum};
use crate::basics::point::{ControlPoint, HomoControlPoint};
use crate::basics::rational::{binomial_spec, rational_der, rational_rest};
use crate::basis_function::bernstein_basis::bernstein_knots;
use crate::basis_function::knots::{is_span, last_span_not_empty, lemma_span_not_empty, well_formed};
use crate::basis_function::{
    basis_carry, basis_entry, basis_share, basis_values, lemma_support_not_empty,
};
use crate::exact::algebra::{
    lemma_cancel, lemma_commutes, lemma_mix, lemma_share_parts, lemma_units, product, quotient,
};
use crate::scalar::Real;

verus! {

/// `val` reads the scalars as real numbers in such a way that zero, one, the
/// comparison and every result of the four operations that is defined mean
/// what they mean for real numbers. A defined result has defined operands,
/// and a defined quotient a divisor other than zero. Nothing is said of an
/// undefined result, such as one that the scalar cannot hold.
pub open spec fn exact<R: Real>(val: spec_fn(R) -> real) -> bool {
    &&& val(R::zero_spec()) == 0real
    &&& val(R::one_spec()) == 1real
    &&& forall|a: R, b: R|
        !(#[trigger] a.plus_spec(b)).is_nan_spec() ==> {
            &&& !a.is_nan_spec()
            &&& !b.is_nan_spec()
            &&& val(a.plus_spec(b)) == val(a) + val(b)
        }
    &&& forall|a: R, b: R|
        !(#[trigger] a.minus_spec(b)).is_nan_spec() ==> {
            &&& !a.is_nan_spec()
            &&& !b.is_nan_spec()
            &&& val(a.minus_spec(b)) == val(a) - val(b)
        }
    &&& forall|a: R, b: R|
        !(#[trigger] a.times_spec(b)).is_nan_spec() ==> {
            &&& !a.is_nan_spec()
            &&& !b.is_nan_spec()
            &&& val(a.times_spec(b)) == product(val(a), val(b))
        }
    &&& forall|a: R, b: R|
        !(#[trigger] a.over_spec(b)).is_nan_spec() ==> {
            &&& !a.is_nan_spec()
            &&& !b.is_nan_spec()
            &&& val(b) != 0real
            &&& val(a.over_spec(b)) == quotient(val(a), val(b))
        }
    &&& forall|a: R, b: R| #[trigger] a.less_spec(b) ==> val(a) < val(b)
    &&& forall|a: R, b: R| #[trigger] a.equal_spec(b) ==> val(a) == val(b)
}

/// `coord` reads one coordinate of the points as a real number, and `whole`
/// tells the points all of whose coordinates are defined, in such a way that
/// the origin and every whole sum, difference, scaled and divided point mean
/// what they mean for real numbers read by `val`. A whole result has whole
/// and defined operands, and a whole quotient a divisor other than zero.
pub open spec fn linear<R: Real, P: ControlPoint<R>>(
    val: spec_fn(R) -> real,
    coord: spec_fn(P) -> real,
    whole: spec_fn(P) -> bool,
) -> bool {
    &&& coord(P::zeros_spec()) == 0real
    &&& forall|p: P, q: P|
        whole(#[trigger] p.plus_spec(q)) ==> {
            &&& whole(p)
            &&& whole(q)
            &&& coord(p.plus_spec(q)) == coord(p) + coord(q)
        }
    &&& forall|p: P, q: P|
        whole(#[trigger] p.minus_spec(q)) ==> {
            &&& whole(p)
            &&& whole(q)
            &&& coord(p.minus_spec(q)) == coord(p) - coord(q)
        }
    &&& forall|p: P, s: R|
        whole(#[trigger] p.times_spec(s)) ==> {
            &&& whole(p)
            &&& !s.is_nan_spec()
            &&& coord(p.times_spec(s)) == product(coord(p), val(s))
        }
    &&& forall|p: P, s: R|
        whole(#[trigger] p.over_spec(s)) ==> {
            &&& whole(p)
            &&& !s.is_nan_spec()
            &&& val(s) != 0real
            &&& coord(p.over_spec(s)) == quotient(coord(p), val(s))
        }
}

/// The basis-function values of order `j` on span `i` are all defined.
pub open spec fn values_defined<R: Real>(knots: Seq<R>, u: R, i: int, j: nat) -> bool {
    forall|r: nat| r <= j ==> !(#[trigger] basis_entry(knots, u, i, j, r)).is_nan_spec()
}

/// The sum of the first `n` basis-function values of order `j` on span `i`,
/// read as real numbers.
pub open spec fn basis_sum<R: Real>(
    val: spec_fn(R) -> real,
    knots: Seq<R>,
    u: R,
    i: int,
    j: nat,
    n: nat,
) -> real
    decreases n,
{
    if n == 0 {
        0real
    } else {
        basis_sum(val, knots, u, i, j, (n - 1) as nat) + val(
            basis_entry(knots, u, i, j, (n - 1) as nat),
        )
    }
}

/// Where the values of one order are defined, so are those of the order
/// below, which they are computed from.
proof fn lemma_values_defined_below<R: Real>(
    val: spec_fn(R) -> real,
    knots: Seq<R>,
    u: R,
    i: int,
    j: nat,
)
    requires
        exact(val),
        1 <= j,
        values_defined(knots, u, i, j),
    ensures
        values_defined(knots, u, i, (j - 1) as nat),
{
    assert forall|r: nat| r <= j - 1 implies !(#[trigger] basis_entry(
        knots,
        u,
        i,
        (j - 1) as nat,
        r,
    )).is_nan_spec() by {
        assert(!basis_entry(knots, u, i, j, r).is_nan_spec());
        assert(!basis_share(knots, u, i, j, r).is_nan_spec());
    }
}

/// The basis functions of order `j` up to the `n`-th, together with what the
/// `n`-th receives from its left neighbour, sum to as much as the functions
/// of order `j - 1` up to the `n`-th.
proof fn lemma_order_step<R: Real>(
    val: spec_fn(R) -> real,
    knots: Seq<R>,
    u: R,
    degree: nat,
    i: int,
    j: nat,
    n: nat,
)
    requires
        exact(val),
        well_formed(knots, degree),
        degree <= i,
        i + degree < knots.len(),
        knots[i].less_spec(knots[i + 1]),
        1 <= j <= degree,
        n <= j,
        values_defined(knots, u, i, j),
    ensures
        basis_sum(val, knots, u, i, j, n) + val(basis_carry(knots, u, i, j, n)) == basis_sum(
            val,
            knots,
            u,
            i,
            (j - 1) as nat,
            n,
        ),
    decreases n,
{
    if n > 0 {
        let m = (n - 1) as nat;
        lemma_order_step(val, knots, u, degree, i, j, m);
        lemma_support_not_empty(knots, degree, i, j, m);
        let upper = val(knots[i + m + 1]);
        let lower = val(knots[i + 1 - j + m]);
        let at = val(u);
        let below = val(basis_entry(knots, u, i, (j - 1) as nat, m));
        let share = val(basis_share(knots, u, i, j, m));
        assert(!basis_entry(knots, u, i, j, m).is_nan_spec());
        assert(!basis_entry(knots, u, i, j, n).is_nan_spec());
        assert(!basis_share(knots, u, i, j, m).is_nan_spec());
        assert(share == quotient(below, upper - lower));
        assert(val(basis_entry(knots, u, i, j, m)) == val(basis_carry(knots, u, i, j, m))
            + product(upper - at, share));
        assert(knots[i - j + n] == knots[i + 1 - j + m]);
        assert(!basis_carry(knots, u, i, j, n).is_nan_spec());
        assert(val(basis_carry(knots, u, i, j, n)) == product(at - lower, share));
        lemma_share_parts(upper, lower, at, below);
    }
}

/// Partition of unity on a span that is not empty: where the arithmetic is
/// exact and the basis-function values of an order up to the degree are
/// defined, they sum to one.
pub proof fn lemma_partition_of_unity<R: Real>(
    val: spec_fn(R) -> real,
    knots: Seq<R>,
    u: R,
    degree: nat,
    i: int,
    j: nat,
)
    requires
        exact(val),
        well_formed(knots, degree),
        degree <= i,
        i + degree < knots.len(),
        knots[i].less_spec(knots[i + 1]),
        j <= degree,
        values_defined(knots, u, i, j),
    ensures
        basis_sum(val, knots, u, i, j, j + 1) == 1real,
    decreases j,
{
    if j == 0 {
        assert(basis_sum(val, knots, u, i, 0, 0) == 0real);
        assert(basis_sum(val, knots, u, i, 0, 1) == basis_sum(val, knots, u, i, 0, 0) + val(
            basis_entry(knots, u, i, 0, 0),
        ));
    } else {
        lemma_values_defined_below(val, knots, u, i, j);
        lemma_partition_of_unity(val, knots, u, degree, i, (j - 1) as nat);
        lemma_order_step(val, knots, u, degree, i, j, j);
        assert(basis_sum(val, knots, u, i, j, j + 1) == basis_sum(val, knots, u, i, j, j) + val(
            basis_entry(knots, u, i, j, j),
        ));
    }
}

/// Partition of unity for every parameter of the domain: where the
/// arithmetic is exact and the last span is not empty, the basis-function
/// values on the span of the parameter sum to one, as far as they are
/// defined.
pub proof fn lemma_partition_of_unity_in_span<R: Real>(
    val: spec_fn(R) -> real,
    knots: Seq<R>,
    u: R,
    degree: nat,
    i: int,
)
    requires
        exact(val),
        well_formed(knots, degree),
        last_span_not_empty(knots, degree),
        is_span(knots, degree, u, i),
        values_defined(knots, u, i, degree),
    ensures
        basis_sum(val, knots, u, i, degree, degree + 1) == 1real,
{
    lemma_span_not_empty(knots, degree, u, i);
    lemma_partition_of_unity(val, knots, u, degree, i, degree);
}

/// The sum of the coordinates of the `n` points `points[start ..]`, each
/// multiplied by its weight.
pub open spec fn dot<R: Real, P: ControlPoint<R>>(
    val: spec_fn(R) -> real,
    coord: spec_fn(P) -> real,
    points: Seq<P>,
    start: int,
    weights: Seq<R>,
    n: nat,
) -> real
    decreases n,
{
    if n == 0 {
        0real
    } else {
        dot(val, coord, points, start, weights, (n - 1) as nat) + product(
            coord(points[start + n - 1]),
            val(weights[n - 1]),
        )
    }
}

/// A coordinate of a whole weighted sum of points is the weighted sum of
/// their coordinates, and all of its weights are defined.
pub proof fn lemma_weighted_sum_coordinate<R: Real, P: ControlPoint<R>>(
    val: spec_fn(R) -> real,
    coord: spec_fn(P) -> real,
    whole: spec_fn(P) -> bool,
    points: Seq<P>,
    start: int,
    weights: Seq<R>,
    n: nat,
)
    requires
        exact(val),
        linear(val, coord, whole),
        whole(weighted_sum(points, start, weights, n)),
    ensures
        coord(weighted_sum(points, start, weights, n)) == dot(
            val,
            coord,
            points,
            start,
            weights,
            n,
        ),
        forall|t: int| 0 <= t < n ==> !(#[trigger] weights[t]).is_nan_spec(),
    decreases n,
{
    if n > 0 {
        lemma_weighted_sum_coordinate(
            val,
            coord,
            whole,
            points,
            start,
            weights,
            (n - 1) as nat,
        );
    }
}

/// What a Bernstein-basis function of order `j` takes from its left
/// neighbour of order `j - 1`.
pub open spec fn bernstein_left<R: Real>(
    val: spec_fn(R) -> real,
    n: usize,
    u: R,
    j: nat,
    r: nat,
) -> real {
    if r >= 1 {
        product(
            val(u),
            val(
                basis_entry(
                    bernstein_knots::<R>((n + 1) as usize),
                    u,
                    n as int,
                    (j - 1) as nat,
                    (r - 1) as nat,
                ),
            ),
        )
    } else {
        0real
    }
}

/// What a Bernstein-basis function of order `j` takes from the function of
/// order `j - 1` with its own index.
pub open spec fn bernstein_above<R: Real>(
    val: spec_fn(R) -> real,
    n: usize,
    u: R,
    j: nat,
    r: nat,
) -> real {
    if r < j {
        product(
            1real - val(u),
            val(
                basis_entry(
                    bernstein_knots::<R>((n + 1) as usize),
                    u,
                    n as int,
                    (j - 1) as nat,
                    r,
                ),
            ),
        )
    } else {
        0real
    }
}

/// Over the knots of a Bernstein basis every support has the width one, so
/// that a defined basis function of order `j` is `u` times its left
/// neighbour of order `j - 1` plus `1 - u` times the one with its own index.
proof fn lemma_bernstein_entry<R: Real>(val: spec_fn(R) -> real, n: usize, u: R, j: nat, r: nat)
    requires
        exact(val),
        2 * (n + 1) <= usize::MAX,
        1 <= j <= n,
        r <= j,
        !basis_entry(bernstein_knots::<R>((n + 1) as usize), u, n as int, j, r).is_nan_spec(),
    ensures
        val(basis_entry(bernstein_knots::<R>((n + 1) as usize), u, n as int, j, r))
            == bernstein_left(val, n, u, j, r) + bernstein_above(val, n, u, j, r),
{
    let knots = bernstein_knots::<R>((n + 1) as usize);
    let i = n as int;
    if r >= 1 {
        let m = (r - 1) as nat;
        assert(knots[i + m + 1] == R::one_spec());
        assert(knots[i + 1 - j + m] == R::zero_spec());
        assert(knots[i - j + r] == R::zero_spec());
        let below = val(basis_entry(knots, u, i, (j - 1) as nat, m));
        lemma_units(below);
        assert(!basis_carry(knots, u, i, j, r).is_nan_spec());
        assert(!basis_share(knots, u, i, j, m).is_nan_spec());
        assert(val(basis_share(knots, u, i, j, m)) == quotient(below, 1real - 0real));
        assert(val(basis_carry(knots, u, i, j, r)) == product(val(u) - 0real, below));
    }
    if r < j {
        assert(knots[i + r + 1] == R::one_spec());
        assert(knots[i + 1 - j + r] == R::zero_spec());
        let below = val(basis_entry(knots, u, i, (j - 1) as nat, r));
        lemma_units(below);
        assert(!basis_share(knots, u, i, j, r).is_nan_spec());
        assert(val(basis_share(knots, u, i, j, r)) == quotient(below, 1real - 0real));
    }
}

/// The weighted sum of order `k` over the first `m` points from `s` on is
/// `1 - u` times that of order `k - 1` over the same points plus `u` times
/// that of order `k - 1` over the `m - 1` points from `s + 1` on.
proof fn lemma_dot_step<R: Real, P: ControlPoint<R>>(
    val: spec_fn(R) -> real,
    coord: spec_fn(P) -> real,
    points: Seq<P>,
    n: usize,
    u: R,
    k: nat,
    s: int,
    m: nat,
)
    requires
        exact(val),
        2 * (n + 1) <= usize::MAX,
        1 <= k <= n,
        1 <= m <= k,
        values_defined(bernstein_knots::<R>((n + 1) as usize), u, n as int, k),
    ensures
        ({
            let knots = bernstein_knots::<R>((n + 1) as usize);
            let now = basis_values(knots, u, n as int, k);
            let before = basis_values(knots, u, n as int, (k - 1) as nat);
            dot(val, coord, points, s, now, m) == product(
                1real - val(u),
                dot(val, coord, points, s, before, m),
            ) + product(val(u), dot(val, coord, points, s + 1, before, (m - 1) as nat))
        }),
    decreases m,
{
    let knots = bernstein_knots::<R>((n + 1) as usize);
    let now = basis_values(knots, u, n as int, k);
    let before = basis_values(knots, u, n as int, (k - 1) as nat);
    let at = val(u);
    let t = (m - 1) as nat;
    let c = coord(points[s + t]);
    assert(!basis_entry(knots, u, n as int, k, t).is_nan_spec());
    lemma_bernstein_entry(val, n, u, k, t);
    assert(now[t as int] == basis_entry(knots, u, n as int, k, t));
    assert(before[t as int] == basis_entry(knots, u, n as int, (k - 1) as nat, t));
    let above = val(before[t as int]);
    let d_same = dot(val, coord, points, s, before, t);
    assert(dot(val, coord, points, s, now, m) == dot(val, coord, points, s, now, t) + product(
        c,
        val(now[t as int]),
    ));
    assert(dot(val, coord, points, s, before, m) == d_same + product(c, above));
    if m == 1 {
        assert(dot(val, coord, points, s, now, 0) == 0real);
        assert(d_same == 0real);
        assert(dot(val, coord, points, s + 1, before, 0) == 0real);
        assert(val(now[0]) == 0real + product(1real - at, above));
        lemma_mix(at, 0real, 0real, c, 0real, above);
        lemma_units(at);
        lemma_units(1real - at);
        lemma_units(c);
    } else {
        lemma_dot_step(val, coord, points, n, u, k, s, t);
        let left = val(before[t - 1]);
        assert(before[t - 1] == basis_entry(knots, u, n as int, (k - 1) as nat, (t - 1) as nat));
        assert(val(now[t as int]) == product(at, left) + product(1real - at, above));
        let d_next = dot(val, coord, points, s + 1, before, (t - 1) as nat);
        assert(coord(points[s + 1 + t - 1]) == c);
        assert(dot(val, coord, points, s + 1, before, t) == d_next + product(c, left));
        lemma_mix(at, d_same, d_next, c, left, above);
    }
}

/// A whole level `k` of the de Casteljau scheme at position `s` is,
/// coordinate by coordinate, the weighted sum of the points from `s` on by
/// the Bernstein-basis values of order `k`.
proof fn lemma_blend_is_weighted_sum<R: Real, P: ControlPoint<R>>(
    val: spec_fn(R) -> real,
    coord: spec_fn(P) -> real,
    whole: spec_fn(P) -> bool,
    points: Seq<P>,
    n: usize,
    u: R,
    k: nat,
    s: int,
)
    requires
        exact(val),
        linear(val, coord, whole),
        2 * (n + 1) <= usize::MAX,
        k <= n,
        whole(blend(points, u, k, s)),
        values_defined(bernstein_knots::<R>((n + 1) as usize), u, n as int, k),
    ensures
        coord(blend(points, u, k, s)) == dot(
            val,
            coord,
            points,
            s,
            basis_values(bernstein_knots::<R>((n + 1) as usize), u, n as int, k),
            k + 1,
        ),
    decreases k,
{
    let knots = bernstein_knots::<R>((n + 1) as usize);
    let now = basis_values(knots, u, n as int, k);
    let at = val(u);
    if k == 0 {
        assert(now[0] == basis_entry(knots, u, n as int, 0, 0));
        assert(dot(val, coord, points, s, now, 0) == 0real);
        assert(dot(val, coord, points, s, now, 1) == dot(val, coord, points, s, now, 0) + product(
            coord(points[s]),
            val(now[0]),
        ));
        lemma_units(coord(points[s]));
    } else {
        let j = (k - 1) as nat;
        let before = basis_values(knots, u, n as int, j);
        let low = blend(points, u, j, s);
        let high = blend(points, u, j, s + 1);
        let rest = R::one_spec().minus_spec(u);
        assert(blend(points, u, k, s) == low.times_spec(rest).plus_spec(high.times_spec(u)));
        assert(whole(low.times_spec(rest)) && whole(high.times_spec(u)));
        assert(whole(low) && whole(high) && !rest.is_nan_spec());
        lemma_values_defined_below(val, knots, u, n as int, k);
        lemma_blend_is_weighted_sum(val, coord, whole, points, n, u, j, s);
        lemma_blend_is_weighted_sum(val, coord, whole, points, n, u, j, s + 1);
        lemma_dot_step(val, coord, points, n, u, k, s, k);
        assert(!basis_entry(knots, u, n as int, k, k).is_nan_spec());
        lemma_bernstein_entry(val, n, u, k, k);
        let c = coord(points[s + k]);
        let corner = val(before[j as int]);
        assert(before[j as int] == basis_entry(knots, u, n as int, j, j));
        assert(now[k as int] == basis_entry(knots, u, n as int, k, k));
        assert(val(now[k as int]) == product(at, corner) + 0real);
        let d_same = dot(val, coord, points, s, before, k);
        let d_next = dot(val, coord, points, s + 1, before, j);
        assert(dot(val, coord, points, s, now, k + 1) == dot(val, coord, points, s, now, k)
            + product(c, val(now[k as int])));
        assert(coord(points[s + 1 + k - 1]) == c);
        assert(dot(val, coord, points, s + 1, before, k) == d_next + product(c, corner));
        assert(val(rest) == 1real - at);
        assert(coord(blend(points, u, k, s)) == product(d_same, 1real - at) + product(
            d_next + product(c, corner),
            at,
        ));
        lemma_mix(at, d_same, d_next, c, corner, 0real);
    }
}

/// Where the arithmetic is exact, the de Casteljau scheme and the evaluation
/// by basis functions give the same point of a Bézier curve of degree `n`:
/// where both points are whole, they agree in every coordinate.
pub proof fn lemma_de_casteljau_is_basis_evaluation<R: Real, P: ControlPoint<R>>(
    val: spec_fn(R) -> real,
    coord: spec_fn(P) -> real,
    whole: spec_fn(P) -> bool,
    points: Seq<P>,
    n: usize,
    u: R,
)
    requires
        exact(val),
        linear(val, coord, whole),
        2 * (n + 1) <= usize::MAX,
        whole(blend(points, u, n as nat, 0)),
        whole(
            curve_point(
                bernstein_knots::<R>((n + 1) as usize),
                n as nat,
                points,
                u,
                n as int,
            ),
        ),
    ensures
        coord(blend(points, u, n as nat, 0)) == coord(
            curve_point(
                bernstein_knots::<R>((n + 1) as usize),
                n as nat,
                points,
                u,
                n as int,
            ),
        ),
{
    let knots = bernstein_knots::<R>((n + 1) as usize);
    let values = basis_values(knots, u, n as int, n as nat);
    lemma_weighted_sum_coordinate(val, coord, whole, points, 0, values, (n + 1) as nat);
    assert forall|r: nat| r <= n implies !(#[trigger] basis_entry(
        knots,
        u,
        n as int,
        n as nat,
        r,
    )).is_nan_spec() by {
        assert(values[r as int] == basis_entry(knots, u, n as int, n as nat, r));
    }
    lemma_blend_is_weighted_sum(val, coord, whole, points, n, u, n as nat, 0);
}

/// Where the arithmetic is exact, a point comes back unchanged, in every
/// coordinate, from its homogeneous form with a weight, where what comes
/// back is whole.
pub proof fn lemma_weight_round_trip<R: Real, P: ControlPoint<R>>(
    val: spec_fn(R) -> real,
    coord: spec_fn(P) -> real,
    whole: spec_fn(P) -> bool,
    point: P,
    weight: R,
)
    requires
        exact(val),
        linear(val, coord, whole),
        whole(
            HomoControlPoint::<R, P>::from_control_point_spec(
                point,
                weight,
            ).to_control_point_and_weight_spec().0,
        ),
    ensures
        coord(
            HomoControlPoint::<R, P>::from_control_point_spec(
                point,
                weight,
            ).to_control_point_and_weight_spec().0,
        ) == coord(point),
{
    let scaled = point.times_spec(weight);
    assert(whole(scaled.over_spec(weight)));
    assert(val(weight) != 0real);
    assert(coord(scaled) == product(coord(point), val(weight)));
    lemma_cancel(coord(point), val(weight));
}

/// The derivatives of the weight read as those of the constant one: one
/// itself, and zero for every order from 1 up to `k`.
pub open spec fn unweighted<R: Real>(val: spec_fn(R) -> real, w: Seq<R>, k: nat) -> bool {
    &&& val(w[0]) == 1real
    &&& forall|i: int| 1 <= i <= k ==> val(#[trigger] w[i]) == 0real
}

/// Under a weight that is constantly one, no correction term takes anything
/// away from the numerator of a derivative.
proof fn lemma_rest_unweighted<R: Real, P: ControlPoint<R>>(
    val: spec_fn(R) -> real,
    coord: spec_fn(P) -> real,
    whole: spec_fn(P) -> bool,
    a: Seq<P>,
    w: Seq<R>,
    k: nat,
    n: nat,
)
    requires
        exact(val),
        linear(val, coord, whole),
        unweighted(val, w, k),
        n <= k,
        whole(rational_rest(a, w, k, n)),
    ensures
        coord(rational_rest(a, w, k, n)) == coord(a[k as int]),
    decreases n,
{
    if n > 0 {
        let before = rational_rest(a, w, k, (n - 1) as nat);
        let scaled = rational_der(a, w, (k - n) as nat).times_spec(
            R::from_usize_spec(binomial_spec(k, n) as usize),
        );
        let term = scaled.times_spec(w[n as int]);
        assert(rational_rest(a, w, k, n) == before.minus_spec(term));
        assert(whole(before) && whole(term));
        assert(coord(term) == product(coord(scaled), val(w[n as int])));
        lemma_units(coord(scaled));
        lemma_rest_unweighted(val, coord, whole, a, w, k, (n - 1) as nat);
    }
}

/// Where the arithmetic is exact and the weight is constantly one, the
/// rational corrector leaves every derivative as it is, coordinate by
/// coordinate.
pub proof fn lemma_corrector_keeps_unweighted_ders<R: Real, P: ControlPoint<R>>(
    val: spec_fn(R) -> real,
    coord: spec_fn(P) -> real,
    whole: spec_fn(P) -> bool,
    a: Seq<P>,
    w: Seq<R>,
    k: nat,
)
    requires
        exact(val),
        linear(val, coord, whole),
        unweighted(val, w, k),
        whole(rational_der(a, w, k)),
    ensures
        coord(rational_der(a, w, k)) == coord(a[k as int]),
{
    let rest = rational_rest(a, w, k, k);
    assert(rational_der(a, w, k) == rest.over_spec(w[0]));
    assert(whole(rest));
    lemma_rest_unweighted(val, coord, whole, a, w, k, k);
    lemma_units(coord(rest));
}

/// The homogeneous forms of a sequence of points that all have the weight
/// one.
pub open spec fn unit_weighted<R: Real, P: ControlPoint<R>>(points: Seq<P>) -> Seq<
    HomoControlPoint<R, P>,
> {
    Seq::new(
        points.len(),
        |j: int| HomoControlPoint::<R, P>::from_control_point_spec(points[j], R::one_spec()),
    )
}

/// The weight that a weighted sum of `n` points of weight one carries: the
/// sum of one times each of the weights of the sum.
pub open spec fn weight_sum<R: Real>(weights: Seq<R>, n: nat) -> R
    decreases n,
{
    if n == 0 {
        R::zero_spec()
    } else {
        weight_sum(weights, (n - 1) as nat).plus_spec(
            R::one_spec().times_spec(weights[n - 1]),
        )
    }
}

/// A weighted sum of points of weight one carries the weighted sum of the
/// points themselves, and the sum of the weights as its weight.
proof fn lemma_unit_weighted_sum<R: Real, P: ControlPoint<R>>(
    points: Seq<P>,
    start: int,
    weights: Seq<R>,
    n: nat,
)
    requires
        0 <= start,
        start + n <= points.len(),
    ensures
        weighted_sum(unit_weighted(points), start, weights, n).control_point == weighted_sum(
            points,
            start,
            weights,
            n,
        ),
        weighted_sum(unit_weighted(points), start, weights, n).weight == weight_sum(weights, n),
    decreases n,
{
    if n > 0 {
        lemma_unit_weighted_sum(points, start, weights, (n - 1) as nat);
        P::unit_scaling(points[start + n - 1]);
        assert(unit_weighted::<R, P>(points)[start + n - 1]
            == HomoControlPoint::<R, P>::from_control_point_spec(
            points[start + n - 1],
            R::one_spec(),
        ));
    }
}

/// A defined sum of the first `n` basis-function values, each times one,
/// reads as the sum of the values, which are all defined.
proof fn lemma_weight_sum_reads<R: Real>(
    val: spec_fn(R) -> real,
    knots: Seq<R>,
    u: R,
    i: int,
    degree: nat,
    n: nat,
)
    requires
        exact(val),
        n <= degree + 1,
        !weight_sum(basis_values(knots, u, i, degree), n).is_nan_spec(),
    ensures
        val(weight_sum(basis_values(knots, u, i, degree), n)) == basis_sum(
            val,
            knots,
            u,
            i,
            degree,
            n,
        ),
        forall|r: nat| r < n ==> !(#[trigger] basis_entry(knots, u, i, degree, r)).is_nan_spec(),
    decreases n,
{
    if n > 0 {
        let values = basis_values(knots, u, i, degree);
        let m = (n - 1) as nat;
        let term = R::one_spec().times_spec(values[m as int]);
        assert(weight_sum(values, n) == weight_sum(values, m).plus_spec(term));
        assert(!weight_sum(values, m).is_nan_spec() && !term.is_nan_spec());
        assert(values[m as int] == basis_entry(knots, u, i, degree, m));
        lemma_weight_sum_reads(val, knots, u, i, degree, m);
        lemma_units(val(values[m as int]));
        lemma_commutes(1real, val(values[m as int]));
    }
}

/// Where the arithmetic is exact, a rational curve whose control points all
/// have the weight one has the points of the curve without weights: where
/// the point is whole, the two agree in every coordinate.
pub proof fn lemma_unit_weights_keep_the_point<R: Real, P: ControlPoint<R>>(
    val: spec_fn(R) -> real,
    coord: spec_fn(P) -> real,
    whole: spec_fn(P) -> bool,
    knots: Seq<R>,
    degree: nat,
    points: Seq<P>,
    u: R,
    i: int,
)
    requires
        exact(val),
        linear(val, coord, whole),
        well_formed(knots, degree),
        last_span_not_empty(knots, degree),
        points.len() + degree + 1 == knots.len(),
        is_span(knots, degree, u, i),
        whole(
            curve_point(
                knots,
                degree,
                unit_weighted(points),
                u,
                i,
            ).to_control_point_and_weight_spec().0,
        ),
    ensures
        coord(
            curve_point(
                knots,
                degree,
                unit_weighted(points),
                u,
                i,
            ).to_control_point_and_weight_spec().0,
        ) == coord(curve_point(knots, degree, points, u, i)),
{
    let values = basis_values(knots, u, i, degree);
    let homo = curve_point(knots, degree, unit_weighted(points), u, i);
    lemma_unit_weighted_sum(points, i - degree, values, degree + 1);
    assert(homo.to_control_point_and_weight_spec().0 == homo.control_point.over_spec(homo.weight));
    assert(!homo.weight.is_nan_spec());
    lemma_weight_sum_reads(val, knots, u, i, degree, degree + 1);
    lemma_partition_of_unity_in_span(val, knots, u, degree, i);
    lemma_units(coord(homo.control_point));
}

} // verus!
