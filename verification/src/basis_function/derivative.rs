//! The derivatives of the basis functions: their definition and the tables
//! that the evaluation builds them from.
use vstd::prelude::*;

use crate::basis_function::knots::Knots;
use crate::basis_function::{basis_carry, basis_entry, basis_share, basis_values};
use crate::scalar::Real;

verus! {

/// The coefficient `a[k][j]` of the basis function with index `idx`: the
/// weight of `N[idx+j, degree-k]` in the `k`-th derivative of
/// `N[idx, degree]`, before the factor `degree! / (degree-k)!`, for
/// `j <= k <= degree`.
///
/// Order 0 has the single coefficient one. For `k >= 1` the first is
/// `a[k-1][0]` over `knots[idx+degree-k+1] - knots[idx]`, an inner one is
/// `a[k-1][j] - a[k-1][j-1]` over `knots[idx+j+degree-k+1] - knots[idx+j]`,
/// and the last is `-a[k-1][k-1]` over `knots[idx+degree+1] - knots[idx+k]`.
pub open spec fn coefficient<R: Real>(knots: Seq<R>, degree: nat, idx: int, k: nat, j: nat) -> R
    decreases k,
{
    if k == 0 {
        R::one_spec()
    } else if j == 0 {
        coefficient(knots, degree, idx, (k - 1) as nat, 0).over_spec(
            knots[idx + degree - k + 1].minus_spec(knots[idx]),
        )
    } else if j < k {
        coefficient(knots, degree, idx, (k - 1) as nat, j).minus_spec(
            coefficient(knots, degree, idx, (k - 1) as nat, (j - 1) as nat),
        ).over_spec(knots[idx + j + degree - k + 1].minus_spec(knots[idx + j]))
    } else {
        coefficient(knots, degree, idx, (k - 1) as nat, (k - 1) as nat).negated_spec().over_spec(
            knots[idx + degree + 1].minus_spec(knots[idx + k]),
        )
    }
}

/// The product of the first `t` factors of
/// `(degree-k+1) * (degree-k+2) * ... * degree`, multiplied from the left
/// onto one; with `t == k` it is `degree! / (degree-k)!`.
pub open spec fn falling_factorial<R: Real>(degree: nat, k: nat, t: nat) -> R
    decreases t,
{
    if t == 0 {
        R::one_spec()
    } else {
        falling_factorial::<R>(degree, k, (t - 1) as nat).times_spec(
            R::from_usize_spec((degree - k + t) as usize),
        )
    }
}

/// The `j`-th term of the `k`-th derivative of `N[i-below, degree]` at `u`:
/// `a[k][j] * N[i-below+j, degree-k](u)` where that function does not vanish
/// on span `i`, and zero where it does.
pub open spec fn derivative_term<R: Real>(
    knots: Seq<R>,
    u: R,
    i: int,
    degree: nat,
    below: nat,
    k: nat,
    j: nat,
) -> R {
    if j <= below && below - j <= degree - k {
        coefficient(knots, degree, i - below, k, j).times_spec(
            basis_entry(knots, u, i, (degree - k) as nat, (degree - k - below + j) as nat),
        )
    } else {
        R::zero_spec()
    }
}

/// The first `n` terms of the `k`-th derivative of `N[i-below, degree]`,
/// summed from the left onto zero.
pub open spec fn derivative_sum<R: Real>(
    knots: Seq<R>,
    u: R,
    i: int,
    degree: nat,
    below: nat,
    k: nat,
    n: nat,
) -> R
    decreases n,
{
    if n == 0 {
        R::zero_spec()
    } else {
        derivative_sum(knots, u, i, degree, below, k, (n - 1) as nat).plus_spec(
            derivative_term(knots, u, i, degree, below, k, (n - 1) as nat),
        )
    }
}

/// The `k`-th derivative at `u` of the basis function with local index `c`,
/// `N[i-degree+c, degree]`. Order 0 is the function's value; a higher order
/// up to the degree is `degree! / (degree-k)!` times the sum of its `k + 1`
/// terms. The function is a polynomial of that degree on the span, so every
/// order above the degree is zero.
pub open spec fn derivative_entry<R: Real>(
    knots: Seq<R>,
    u: R,
    i: int,
    degree: nat,
    k: nat,
    c: nat,
) -> R {
    if k == 0 {
        basis_entry(knots, u, i, degree, c)
    } else if k <= degree {
        falling_factorial::<R>(degree, k, k).times_spec(
            derivative_sum(knots, u, i, degree, (degree - c) as nat, k, k + 1),
        )
    } else {
        R::zero_spec()
    }
}

/// Row `k` of the derivative table: the `k`-th derivatives of the
/// `degree + 1` basis functions that do not vanish on span `i`.
pub open spec fn derivative_row<R: Real>(knots: Seq<R>, u: R, i: int, degree: nat, k: nat) -> Seq<
    R,
> {
    Seq::new(degree + 1, |c: int| derivative_entry(knots, u, i, degree, k, c as nat))
}

/// `table` is the derivative table of the basis at `u` on span `i`: rows
/// `0 ..= degree` by derivative order, columns `0 ..= degree` by local
/// function index.
pub open spec fn is_derivative_table<R: Real>(
    table: Seq<Vec<R>>,
    knots: Seq<R>,
    u: R,
    i: int,
    degree: nat,
) -> bool {
    &&& table.len() == degree + 1
    &&& forall|k: int|
        0 <= k <= degree ==> (#[trigger] table[k])@ == derivative_row(
            knots,
            u,
            i,
            degree,
            k as nat,
        )
}

/// Row 0 of the derivative table is the sequence of basis-function values:
/// both are the same expression over the same operations.
pub proof fn lemma_derivative_row_zero_is_values<R: Real>(
    knots: Seq<R>,
    u: R,
    i: int,
    degree: nat,
)
    ensures
        derivative_row(knots, u, i, degree, 0) == basis_values(knots, u, i, degree),
{
    assert(derivative_row(knots, u, i, degree, 0) =~= basis_values(knots, u, i, degree));
}

/// Every row of derivatives of an order above the degree is all zero; the
/// derivative table stops at the degree and leaves those rows out.
pub proof fn lemma_derivatives_above_degree_vanish<R: Real>(
    knots: Seq<R>,
    u: R,
    i: int,
    degree: nat,
    k: nat,
)
    requires
        k > degree,
    ensures
        derivative_row(knots, u, i, degree, k) == Seq::new(
            degree + 1,
            |c: int| R::zero_spec(),
        ),
{
    assert(derivative_row(knots, u, i, degree, k) =~= Seq::new(
        degree + 1,
        |c: int| R::zero_spec(),
    ));
}

/// `table` holds the basis-function values of every order up to `degree`:
/// row `j` has the `j + 1` values of order `j`.
pub open spec fn is_basis_table<R: Real>(
    table: Seq<Vec<R>>,
    knots: Seq<R>,
    u: R,
    i: int,
    degree: nat,
) -> bool {
    &&& table.len() == degree + 1
    &&& forall|j: int|
        0 <= j <= degree ==> (#[trigger] table[j])@.len() == j + 1
    &&& forall|j: int, r: int|
        0 <= r <= j <= degree ==> #[trigger] table[j]@[r] == basis_entry(
            knots,
            u,
            i,
            j as nat,
            r as nat,
        )
}

/// `table` holds the coefficients of the basis function with index `idx` for
/// every derivative order up to `degree`: row `k` has the `k + 1`
/// coefficients of order `k`.
pub open spec fn is_coefficient_table<R: Real>(
    table: Seq<Vec<R>>,
    knots: Seq<R>,
    degree: nat,
    idx: int,
) -> bool {
    &&& table.len() == degree + 1
    &&& forall|k: int|
        0 <= k <= degree ==> (#[trigger] table[k])@.len() == k + 1
    &&& forall|k: int, j: int|
        0 <= j <= k <= degree ==> #[trigger] table[k]@[j] == coefficient(
            knots,
            degree,
            idx,
            k as nat,
            j as nat,
        )
}

/// Builds the table of basis-function values of all orders up to `p` on span
/// `i`, each order from the one before.
pub(crate) fn basis_table<R: Real>(knots: &Knots<R>, u: R, i: usize, p: usize) -> (table: Vec<
    Vec<R>,
>)
    requires
        p <= i,
        i + p < knots@.len(),
    ensures
        is_basis_table(table@, knots@, u, i as int, p as nat),
{
    let len = knots.length();
    let mut table: Vec<Vec<R>> = Vec::new();
    let mut first: Vec<R> = Vec::new();
    first.push(R::one());
    table.push(first);
    let mut j: usize = 1;
    while j <= p
        invariant
            1 <= j <= p + 1,
            p <= i,
            i + p < len == knots@.len(),
            is_basis_table(table@, knots@, u, i as int, (j - 1) as nat),
        decreases p + 1 - j,
    {
        let mut row: Vec<R> = Vec::new();
        let mut saved = R::zero();
        let mut r: usize = 0;
        while r < j
            invariant
                1 <= j <= p,
                r <= j,
                p <= i,
                i + p < len == knots@.len(),
                is_basis_table(table@, knots@, u, i as int, (j - 1) as nat),
                row@.len() == r,
                saved == basis_carry(knots@, u, i as int, j as nat, r as nat),
                forall|t: int|
                    0 <= t < r ==> row@[t] == basis_entry(
                        knots@,
                        u,
                        i as int,
                        j as nat,
                        t as nat,
                    ),
            decreases j - r,
        {
            let upper = knots.index(i + r + 1);
            let lower = knots.index(i + 1 - j + r);
            let temp = table[j - 1][r].over(upper.minus(lower));
            assert(temp == basis_share(knots@, u, i as int, j as nat, r as nat));
            row.push(saved.plus(upper.minus(u).times(temp)));
            saved = u.minus(lower).times(temp);
            r += 1;
        }
        row.push(saved);
        table.push(row);
        j += 1;
    }
    table
}

/// Builds the table of derivative coefficients of the basis function with
/// index `idx`, each order from the one before.
pub(crate) fn coefficient_table<R: Real>(knots: &Knots<R>, p: usize, idx: usize) -> (table: Vec<
    Vec<R>,
>)
    requires
        idx + p + 1 < knots@.len(),
    ensures
        is_coefficient_table(table@, knots@, p as nat, idx as int),
{
    let len = knots.length();
    let mut table: Vec<Vec<R>> = Vec::new();
    let mut first: Vec<R> = Vec::new();
    first.push(R::one());
    table.push(first);
    let mut k: usize = 1;
    while k <= p
        invariant
            1 <= k <= p + 1,
            idx + p + 1 < len == knots@.len(),
            table@.len() == k,
            forall|a: int| 0 <= a < k ==> (#[trigger] table@[a])@.len() == a + 1,
            forall|a: int, b: int|
                0 <= b <= a < k ==> #[trigger] table@[a]@[b] == coefficient(
                    knots@,
                    p as nat,
                    idx as int,
                    a as nat,
                    b as nat,
                ),
        decreases p + 1 - k,
    {
        let mut row: Vec<R> = Vec::new();
        let mut j: usize = 0;
        while j < k
            invariant
                1 <= k <= p,
                j <= k,
                idx + p + 1 < len == knots@.len(),
                table@.len() == k,
                forall|a: int| 0 <= a < k ==> (#[trigger] table@[a])@.len() == a + 1,
                forall|a: int, b: int|
                    0 <= b <= a < k ==> #[trigger] table@[a]@[b] == coefficient(
                        knots@,
                        p as nat,
                        idx as int,
                        a as nat,
                        b as nat,
                    ),
                row@.len() == j,
                forall|b: int|
                    0 <= b < j ==> row@[b] == coefficient(
                        knots@,
                        p as nat,
                        idx as int,
                        k as nat,
                        b as nat,
                    ),
            decreases k - j,
        {
            let width = knots.index(idx + (p + 1 - k + j)).minus(knots.index(idx + j));
            if j == 0 {
                row.push(table[k - 1][0].over(width));
            } else {
                row.push(table[k - 1][j].minus(table[k - 1][j - 1]).over(width));
            }
            j += 1;
        }
        let width = knots.index(idx + p + 1).minus(knots.index(idx + k));
        row.push(table[k - 1][k - 1].negated().over(width));
        table.push(row);
        k += 1;
    }
    table
}

} // verus!
