//! Knot vectors and the basis functions defined over them.
use vstd::prelude::*;

pub mod bernstein_basis;
pub mod bspline_basis;
pub mod derivative;
pub mod knots;

pub use bernstein_basis::BernsteinBasis;
pub use bspline_basis::BsplineBasis;
pub use knots::Knots;

use crate::basis_function::derivative::{
    basis_table, coefficient_table, derivative_entry, derivative_row, derivative_sum,
    falling_factorial, is_basis_table, is_coefficient_table, is_derivative_table,
};
use crate::basis_function::knots::{in_domain, is_span, span_of, well_formed};
use crate::scalar::{at_most, Real};

verus! {

/// Why a basis function could not be built or evaluated.
#[derive(Debug, Clone, Copy, PartialEq, Eq, Structural)]
pub enum BasisFunctionError {
    /// The parameter lies below the first knot.
    ULessThanMin,
    /// The parameter lies above the last knot.
    UGreaterThanMax,
    /// The parameter is infinite.
    UIsInfinite,
    /// The parameter is not a number.
    UIsNon,
    /// The degree leaves fewer than `degree + 1` control points.
    TooLargeDegree,
}

/// The share of the order `j - 1` function with local index `r` that the
/// recursion hands on to order `j`: its value over the width of its support,
/// `N[i-j+1+r, j-1](u) / (knots[i+r+1] - knots[i+1-j+r])`, for `r < j`.
pub open spec fn basis_share<R: Real>(knots: Seq<R>, u: R, i: int, j: nat, r: nat) -> R
    decreases j, 0nat,
{
    if j == 0 {
        R::zero_spec()
    } else {
        basis_entry(knots, u, i, (j - 1) as nat, r).over_spec(
            knots[i + r + 1].minus_spec(knots[i + 1 - j + r]),
        )
    }
}

/// What the function with local index `r` of order `j` receives from its left
/// neighbour's share: zero for `r == 0`, else
/// `(u - knots[i-j+r]) * basis_share(j, r - 1)`.
pub open spec fn basis_carry<R: Real>(knots: Seq<R>, u: R, i: int, j: nat, r: nat) -> R
    decreases j, 1nat,
{
    if r == 0 {
        R::zero_spec()
    } else {
        u.minus_spec(knots[i - j + r]).times_spec(basis_share(knots, u, i, j, (r - 1) as nat))
    }
}

/// The value at `u` of the basis function `N[i-j+r, j]`: the one of order
/// (degree) `j` with local index `r` in `0 ..= j`, among those that do not
/// vanish on the knot span `i`.
///
/// This is the Cox-de Boor recursion. Order 0 has the single value one. A
/// function of order `j` is the sum of what it receives from the left and of
/// `(knots[i+r+1] - u)` times its own share; the last one, `r == j`, only
/// receives.
pub open spec fn basis_entry<R: Real>(knots: Seq<R>, u: R, i: int, j: nat, r: nat) -> R
    decreases j, 2nat,
{
    if j == 0 {
        R::one_spec()
    } else if r < j {
        basis_carry(knots, u, i, j, r).plus_spec(
            knots[i + r + 1].minus_spec(u).times_spec(basis_share(knots, u, i, j, r)),
        )
    } else {
        basis_carry(knots, u, i, j, j)
    }
}

/// On a span that is not empty, the recursion never divides by the width of
/// an empty support: the knots that a share of order `j` is divided by the
/// difference of lie on either side of the span.
pub proof fn lemma_support_not_empty<R: Real>(knots: Seq<R>, degree: nat, i: int, j: nat, r: nat)
    requires
        well_formed(knots, degree),
        degree <= i,
        i + degree < knots.len(),
        knots[i].less_spec(knots[i + 1]),
        1 <= j <= degree,
        r < j,
    ensures
        knots[i + 1 - j + r].less_spec(knots[i + r + 1]),
{
    assert(at_most(knots[i + 1 - j + r], knots[i]));
    assert(at_most(knots[i + 1], knots[i + r + 1]));
    R::order_laws(knots[i + 1 - j + r], knots[i], knots[i + 1]);
    R::order_laws(knots[i + 1 - j + r], knots[i + 1], knots[i + r + 1]);
}

/// The `degree + 1` basis-function values `N[i-degree ..= i, degree](u)` that
/// do not vanish on span `i`.
pub open spec fn basis_values<R: Real>(knots: Seq<R>, u: R, i: int, degree: nat) -> Seq<R> {
    Seq::new(degree + 1, |r: int| basis_entry(knots, u, i, degree, r as nat))
}

/// A sequence of `n` entries, all equal to `value`.
pub(crate) fn repeated<T: Copy>(value: T, n: usize) -> (v: Vec<T>)
    ensures
        v@ == Seq::new(n as nat, |i: int| value),
{
    let mut v: Vec<T> = Vec::new();
    let mut k: usize = 0;
    while k < n
        invariant
            k <= n,
            v@ == Seq::new(k as nat, |i: int| value),
        decreases n - k,
    {
        v.push(value);
        k += 1;
    }
    v
}

/// A basis: a degree together with a knot vector.
///
/// `get_span`, `get_values` and `get_ders` are the same for every basis; an
/// implementation supplies the degree and the knots.
pub trait Basis<R: Real> {
    spec fn degree_spec(&self) -> nat;

    spec fn knots_spec(&self) -> Seq<R>;

    fn degree(&self) -> (p: usize)
        ensures
            p == self.degree_spec(),
    ;

    fn knots(&self) -> (k: &Knots<R>)
        ensures
            k@ == self.knots_spec(),
    ;

    /// The knot span of a parameter inside of the domain.
    fn get_span(&self, u: R) -> (span: usize)
        requires
            well_formed(self.knots_spec(), self.degree_spec()),
            in_domain(self.knots_spec(), u),
        ensures
            is_span(self.knots_spec(), self.degree_spec(), u, span as int),
            span == span_of(self.knots_spec(), self.degree_spec(), u),
    {
        self.knots().find_span(self.degree(), u).unwrap()
    }

    /// The values at `u` of the `degree + 1` basis functions that do not
    /// vanish on span `i`.
    fn get_values(&self, u: R, i: usize) -> (values: Vec<R>)
        requires
            self.degree_spec() <= i,
            i + self.degree_spec() < self.knots_spec().len(),
        ensures
            values@ == basis_values(self.knots_spec(), u, i as int, self.degree_spec()),
    {
        let p = self.degree();
        let knot_vector = self.knots();
        let len = knot_vector.length();
        let mut basis = repeated(R::zero(), p + 1);
        basis.set(0, R::one());
        let mut j: usize = 1;
        while j <= p
            invariant
                1 <= j <= p + 1,
                p <= i,
                i + p < len == knot_vector@.len(),
                basis@.len() == p + 1,
                forall|t: int|
                    0 <= t < j ==> basis@[t] == basis_entry(
                        knot_vector@,
                        u,
                        i as int,
                        (j - 1) as nat,
                        t as nat,
                    ),
            decreases p + 1 - j,
        {
            let mut saved = R::zero();
            let mut r: usize = 0;
            while r < j
                invariant
                    1 <= j <= p,
                    r <= j,
                    p <= i,
                    i + p < len == knot_vector@.len(),
                    basis@.len() == p + 1,
                    saved == basis_carry(knot_vector@, u, i as int, j as nat, r as nat),
                    forall|t: int|
                        0 <= t < r ==> basis@[t] == basis_entry(
                            knot_vector@,
                            u,
                            i as int,
                            j as nat,
                            t as nat,
                        ),
                    forall|t: int|
                        r <= t < j ==> basis@[t] == basis_entry(
                            knot_vector@,
                            u,
                            i as int,
                            (j - 1) as nat,
                            t as nat,
                        ),
                decreases j - r,
            {
                let upper = knot_vector.index(i + r + 1);
                let lower = knot_vector.index(i + 1 - j + r);
                let temp = basis[r].over(upper.minus(lower));
                assert(temp == basis_share(knot_vector@, u, i as int, j as nat, r as nat));
                basis.set(r, saved.plus(upper.minus(u).times(temp)));
                saved = u.minus(lower).times(temp);
                r += 1;
            }
            basis.set(j, saved);
            j += 1;
        }
        assert(basis@ =~= basis_values(knot_vector@, u, i as int, p as nat));
        basis
    }

    /// The derivative table at `u` on span `i`: row `k`, column `c` holds the
    /// `k`-th derivative of the basis function with local index `c`, for all
    /// orders up to the degree. Row 0 holds the values themselves.
    fn get_ders(&self, u: R, i: usize) -> (ders: Vec<Vec<R>>)
        requires
            self.degree_spec() <= i,
            i + self.degree_spec() + 1 < self.knots_spec().len(),
        ensures
            is_derivative_table(ders@, self.knots_spec(), u, i as int, self.degree_spec()),
            ders@[0]@ == basis_values(self.knots_spec(), u, i as int, self.degree_spec()),
    {
        let p = self.degree();
        let knot_vector = self.knots();
        let len = knot_vector.length();
        let ndu = basis_table(knot_vector, u, i, p);
        // One coefficient table for each of the functions N[i-p ..= i, p].
        let mut a: Vec<Vec<Vec<R>>> = Vec::new();
        let mut c: usize = 0;
        while c <= p
            invariant
                c <= p + 1,
                p <= i,
                i + p + 1 < len == knot_vector@.len(),
                a@.len() == c,
                forall|t: int|
                    0 <= t < c ==> is_coefficient_table(
                        (#[trigger] a@[t])@,
                        knot_vector@,
                        p as nat,
                        i - p + t,
                    ),
            decreases p + 1 - c,
        {
            a.push(coefficient_table(knot_vector, p, i - p + c));
            c += 1;
        }
        let mut der: Vec<Vec<R>> = Vec::new();
        let mut k: usize = 0;
        while k <= p
            invariant
                k <= p + 1,
                p <= i,
                i + p + 1 < len == knot_vector@.len(),
                is_basis_table(ndu@, knot_vector@, u, i as int, p as nat),
                a@.len() == p + 1,
                forall|t: int|
                    0 <= t <= p ==> is_coefficient_table(
                        (#[trigger] a@[t])@,
                        knot_vector@,
                        p as nat,
                        i - p + t,
                    ),
                der@.len() == k,
                forall|t: int|
                    0 <= t < k ==> (#[trigger] der@[t])@ == derivative_row(
                        knot_vector@,
                        u,
                        i as int,
                        p as nat,
                        t as nat,
                    ),
            decreases p + 1 - k,
        {
            // p * (p - 1) * ... * (p - k + 1)
            let mut pre = R::one();
            let mut z: usize = p - k + 1;
            while z <= p
                invariant
                    k <= p,
                    p - k + 1 <= z <= p + 1,
                    p < len,
                    pre == falling_factorial::<R>(p as nat, k as nat, (z - (p - k + 1)) as nat),
                decreases p + 1 - z,
            {
                pre = pre.times(R::from_usize(z));
                z += 1;
            }
            let mut row: Vec<R> = Vec::new();
            let mut c: usize = 0;
            while c <= p
                invariant
                    k <= p,
                    c <= p + 1,
                    p <= i,
                    i + p + 1 < len == knot_vector@.len(),
                    is_basis_table(ndu@, knot_vector@, u, i as int, p as nat),
                    a@.len() == p + 1,
                    forall|t: int|
                        0 <= t <= p ==> is_coefficient_table(
                            (#[trigger] a@[t])@,
                            knot_vector@,
                            p as nat,
                            i - p + t,
                        ),
                    pre == falling_factorial::<R>(p as nat, k as nat, k as nat),
                    row@.len() == c,
                    forall|t: int|
                        0 <= t < c ==> row@[t] == derivative_entry(
                            knot_vector@,
                            u,
                            i as int,
                            p as nat,
                            k as nat,
                            t as nat,
                        ),
                decreases p + 1 - c,
            {
                if k == 0 {
                    row.push(ndu[p][c]);
                } else {
                    // The function N[i-r, p].
                    let r = p - c;
                    let mut sum = R::zero();
                    let mut j: usize = 0;
                    while j <= k
                        invariant
                            1 <= k <= p,
                            c <= p,
                            r == p - c,
                            j <= k + 1,
                            p < len,
                            is_basis_table(ndu@, knot_vector@, u, i as int, p as nat),
                            a@.len() == p + 1,
                            is_coefficient_table(a@[c as int]@, knot_vector@, p as nat, i - r),
                            sum == derivative_sum(
                                knot_vector@,
                                u,
                                i as int,
                                p as nat,
                                r as nat,
                                k as nat,
                                j as nat,
                            ),
                        decreases k + 1 - j,
                    {
                        let term = if j <= r && r - j <= p - k {
                            a[c][k][j].times(ndu[p - k][p - k - (r - j)])
                        } else {
                            R::zero()
                        };
                        sum = sum.plus(term);
                        j += 1;
                    }
                    row.push(pre.times(sum));
                }
                c += 1;
            }
            assert(row@ =~= derivative_row(knot_vector@, u, i as int, p as nat, k as nat));
            der.push(row);
            k += 1;
        }
        assert(der@[0]@ =~= basis_values(knot_vector@, u, i as int, p as nat));
        der
    }
}

} // verus!
