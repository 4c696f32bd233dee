//! The B-spline basis over an arbitrary or a uniform clamped knot vector.
use vstd::prelude::*;

use crate::basis_function::knots::{
    clamped, last_span_not_empty, non_decreasing, well_formed, Knots,
};
use crate::basis_function::{Basis, BasisFunctionError};
use crate::scalar::{at_most, ratio, Real, MAX_EXACT_COUNT};

verus! {

/// A B-spline basis: a degree and a knot vector.
pub struct BsplineBasis<R: Real> {
    degree: usize,
    knots: Knots<R>,
}

/// The uniform clamped knot vector of `degree` for `n` control points:
/// `degree` zeros, the fractions `0/s, 1/s, ..., s/s` of the `s = n - degree`
/// spans, then `degree` ones.
pub open spec fn uniform_knots<R: Real>(degree: usize, n: usize) -> Seq<R> {
    Seq::new(
        (n + degree + 1) as nat,
        |i: int|
            if i < degree {
                R::zero_spec()
            } else if i <= n {
                ratio::<R>((i - degree) as usize, (n - degree) as usize)
            } else {
                R::one_spec()
            },
    )
}

/// The numerator of the fraction that knot `i` of the uniform knot vector is
/// numerically equal to.
pub open spec fn uniform_step(degree: usize, n: usize, i: int) -> usize {
    if i < degree {
        0
    } else if i <= n {
        (i - degree) as usize
    } else {
        (n - degree) as usize
    }
}

/// A uniform clamped knot vector is well formed for its degree, and its last
/// span is not empty where the scalar tells the fractions of its spans
/// apart.
pub proof fn lemma_uniform_knots_well_formed<R: Real>(degree: usize, n: usize)
    requires
        degree < n,
        n + degree + 1 <= usize::MAX,
    ensures
        well_formed(uniform_knots::<R>(degree, n), degree as nat),
        n - degree <= MAX_EXACT_COUNT ==> last_span_not_empty(
            uniform_knots::<R>(degree, n),
            degree as nat,
        ),
{
    let knots = uniform_knots::<R>(degree, n);
    let spans = (n - degree) as usize;
    let zero = R::zero_spec();
    let one = R::one_spec();
    let step = |i: int| uniform_step(degree, n, i);
    assert forall|i: int| 0 <= i < knots.len() implies (#[trigger] knots[i]).equal_spec(
        ratio::<R>(step(i), spans),
    ) && ratio::<R>(step(i), spans).equal_spec(knots[i]) by {
        R::ratio_laws(step(i), spans, spans);
        R::order_laws(ratio::<R>(step(i), spans), ratio::<R>(spans, spans), knots[i]);
        R::order_laws(knots[i], ratio::<R>(step(i), spans), knots[i]);
        R::order_laws(ratio::<R>(step(i), spans), knots[i], knots[i]);
        R::order_laws(ratio::<R>(step(i), spans), ratio::<R>(step(i), spans), knots[i]);
    }
    assert forall|i: int, j: int| 0 <= i <= j < knots.len() implies at_most(
        #[trigger] knots[i],
        #[trigger] knots[j],
    ) by {
        let a = ratio::<R>(step(i), spans);
        let b = ratio::<R>(step(j), spans);
        R::ratio_laws(step(i), step(j), spans);
        R::order_laws(knots[i], a, b);
        R::order_laws(knots[i], b, knots[j]);
    }
    assert(non_decreasing(knots));
    assert forall|i: int| 0 <= i <= degree implies (#[trigger] knots[i]).equal_spec(knots[0]) by {
        R::order_laws(knots[i], ratio::<R>(0, spans), knots[0]);
    }
    assert forall|i: int| knots.len() - 1 - degree <= i < knots.len() implies (
    #[trigger] knots[i]).equal_spec(knots[knots.len() - 1]) by {
        R::order_laws(knots[i], ratio::<R>(spans, spans), knots[knots.len() - 1]);
    }
    assert(clamped(knots, degree as nat));
    if spans <= MAX_EXACT_COUNT {
        R::ratio_laws((spans - 1) as usize, spans, spans);
        assert(knots[n - 1] == ratio::<R>((spans - 1) as usize, spans));
        assert(knots[n as int] == ratio::<R>(spans, spans));
    }
}

impl<R: Real> BsplineBasis<R> {
    /// A basis of the given degree over the given knots, taken as they are.
    pub fn new(degree: usize, knots: Knots<R>) -> (basis: Self)
        ensures
            basis.degree_spec() == degree,
            basis.knots_spec() == knots@,
    {
        Self { degree, knots }
    }

    /// A basis of the given degree over the uniform clamped knot vector for
    /// `n` control points.
    ///
    /// Fails when `n` is less than `degree + 1`.
    pub fn new_uniform(degree: usize, n: usize) -> (res: Result<Self, BasisFunctionError>)
        requires
            n + degree + 1 <= usize::MAX,
        ensures
            degree >= n <==> res is Err,
            res matches Err(e) ==> e == BasisFunctionError::TooLargeDegree,
            res matches Ok(basis) ==> {
                &&& basis.degree_spec() == degree
                &&& basis.knots_spec() == uniform_knots::<R>(degree, n)
                &&& well_formed(basis.knots_spec(), degree as nat)
                &&& n - degree <= MAX_EXACT_COUNT ==> last_span_not_empty(
                    basis.knots_spec(),
                    degree as nat,
                )
            },
    {
        if degree >= n {
            return Err(BasisFunctionError::TooLargeDegree);
        }
        let len = n - degree;
        let mut v: Vec<R> = Vec::new();
        let mut i: usize = 0;
        while i < degree
            invariant
                i <= degree < n,
                n + degree + 1 <= usize::MAX,
                v@.len() == i,
                forall|t: int| 0 <= t < i ==> v@[t] == uniform_knots::<R>(degree, n)[t],
            decreases degree - i,
        {
            v.push(R::zero());
            i += 1;
        }
        let mut i: usize = 0;
        while i < len + 1
            invariant
                i <= len + 1,
                len == n - degree,
                degree < n,
                n + degree + 1 <= usize::MAX,
                v@.len() == degree + i,
                forall|t: int| 0 <= t < degree + i ==> v@[t] == uniform_knots::<R>(degree, n)[t],
            decreases len + 1 - i,
        {
            v.push(R::from_usize(i).over(R::from_usize(len)));
            i += 1;
        }
        let mut i: usize = 0;
        while i < degree
            invariant
                i <= degree < n,
                n + degree + 1 <= usize::MAX,
                v@.len() == n + 1 + i,
                forall|t: int| 0 <= t < n + 1 + i ==> v@[t] == uniform_knots::<R>(degree, n)[t],
            decreases degree - i,
        {
            v.push(R::one());
            i += 1;
        }
        proof {
            assert(v@ =~= uniform_knots::<R>(degree, n));
            lemma_uniform_knots_well_formed::<R>(degree, n);
        }
        let knots = Knots::new(v);
        Ok(Self { degree, knots })
    }
}

impl<R: Real> Basis<R> for BsplineBasis<R> {
    closed spec fn degree_spec(&self) -> nat {
        self.degree as nat
    }

    closed spec fn knots_spec(&self) -> Seq<R> {
        self.knots@
    }

    fn degree(&self) -> usize {
        self.degree
    }

    fn knots(&self) -> &Knots<R> {
        &self.knots
    }
}

} // verus!
