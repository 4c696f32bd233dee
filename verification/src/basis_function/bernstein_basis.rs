//! The Bernstein basis: the B-spline basis of a single span.
use vstd::prelude::*;

use crate::basis_function::knots::{
    clamped, last_span_not_empty, non_decreasing, well_formed, Knots,
};
use crate::basis_function::Basis;
use crate::scalar::{at_most, Real};

verus! {

/// The Bernstein basis of degree `n - 1` for `n` control points.
pub struct BernsteinBasis<R: Real> {
    degree: usize,
    knots: Knots<R>,
}

/// The knot vector of the Bernstein basis for `n` control points: `n` zeros
/// followed by `n` ones.
pub open spec fn bernstein_knots<R: Real>(n: usize) -> Seq<R> {
    Seq::new(
        (2 * n) as nat,
        |i: int|
            if i < n {
                R::zero_spec()
            } else {
                R::one_spec()
            },
    )
}

/// The Bernstein knot vector for `n >= 1` control points is well formed for
/// degree `n - 1`, and its one span is not empty.
pub proof fn lemma_bernstein_knots_well_formed<R: Real>(n: usize)
    requires
        1 <= n,
    ensures
        well_formed(bernstein_knots::<R>(n), (n - 1) as nat),
        last_span_not_empty(bernstein_knots::<R>(n), (n - 1) as nat),
{
    let knots = bernstein_knots::<R>(n);
    let zero = R::zero_spec();
    let one = R::one_spec();
    R::unit_laws(zero);
    R::order_laws(zero, one, zero);
    R::order_laws(one, one, zero);
    assert forall|i: int, j: int| 0 <= i <= j < knots.len() implies at_most(
        #[trigger] knots[i],
        #[trigger] knots[j],
    ) by {}
    assert(non_decreasing(knots));
    assert(clamped(knots, (n - 1) as nat));
}

impl<R: Real> BernsteinBasis<R> {
    /// The Bernstein basis for `n` control points, of degree `n - 1`. A
    /// count of 0 is taken as 1.
    pub fn new(n: usize) -> (basis: Self)
        requires
            2 * n <= usize::MAX,
        ensures
            basis.degree_spec() == (if n == 0 { 0 } else { n - 1 }),
            basis.knots_spec() == bernstein_knots::<R>(if n == 0 { 1 } else { n }),
            well_formed(basis.knots_spec(), basis.degree_spec()),
            last_span_not_empty(basis.knots_spec(), basis.degree_spec()),
    {
        let n: usize = if n == 0 { 1 } else { n };
        let mut v: Vec<R> = Vec::new();
        let mut i: usize = 0;
        while i < n
            invariant
                i <= n,
                v@.len() == i,
                forall|t: int| 0 <= t < i ==> v@[t] == R::zero_spec(),
            decreases n - i,
        {
            v.push(R::zero());
            i += 1;
        }
        let mut i: usize = 0;
        while i < n
            invariant
                i <= n,
                2 * n <= usize::MAX,
                v@.len() == n + i,
                forall|t: int| 0 <= t < n ==> v@[t] == R::zero_spec(),
                forall|t: int| n <= t < n + i ==> v@[t] == R::one_spec(),
            decreases n - i,
        {
            v.push(R::one());
            i += 1;
        }
        proof {
            assert(v@ =~= bernstein_knots::<R>(n));
            lemma_bernstein_knots_well_formed::<R>(n);
        }
        let knots = Knots::new(v);
        Self { degree: n - 1, knots }
    }
}

impl<R: Real> Basis<R> for BernsteinBasis<R> {
    closed spec fn degree_spec(&self) -> nat {
        self.degree as nat
    }

    closed spec fn knots_spec(&self) -> Seq<R> {
        self.knots@
    }

    fn degree(&self) -> usize {
        self.degree
    }

    fn knots(&self) -> &Knots<R> {
        &self.knots
    }
}

} // verus!
