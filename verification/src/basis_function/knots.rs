//! Knot vectors and knot-span lookup.
use vstd::prelude::*;

use crate::basis_function::BasisFunctionError;
use crate::scalar::{at_most, Real};

verus! {

/// A knot vector: the parameter breakpoints at which basis-function pieces
/// join.
pub struct Knots<R: Real>(pub Vec<R>);

impl<R: Real> View for Knots<R> {
    type V = Seq<R>;

    open spec fn view(&self) -> Seq<R> {
        self.0@
    }
}

/// Every knot is a defined number and no knot lies below one before it.
pub open spec fn non_decreasing<R: Real>(knots: Seq<R>) -> bool {
    forall|i: int, j: int|
        0 <= i <= j < knots.len() ==> at_most(#[trigger] knots[i], #[trigger] knots[j])
}

/// The first `degree + 1` knots are equal to each other, and so are the last
/// `degree + 1`.
pub open spec fn clamped<R: Real>(knots: Seq<R>, degree: nat) -> bool {
    &&& knots.len() >= degree + 1
    &&& forall|i: int| 0 <= i <= degree ==> (#[trigger] knots[i]).equal_spec(knots[0])
    &&& forall|i: int|
        knots.len() - 1 - degree <= i < knots.len() ==> (#[trigger] knots[i]).equal_spec(
            knots[knots.len() - 1],
        )
}

/// A clamped, non-decreasing knot vector for `degree` with room for at least
/// `degree + 1` control points. Such a vector of length `m + 1` pairs with
/// `m - degree` control points.
pub open spec fn well_formed<R: Real>(knots: Seq<R>, degree: nat) -> bool {
    &&& knots.len() >= 2 * degree + 2
    &&& non_decreasing(knots)
    &&& clamped(knots, degree)
}

/// The last of the spans that carry basis functions is not empty: the knot
/// that ends it lies above the one that starts it. A parameter equal to the
/// last knot is evaluated on this span.
pub open spec fn last_span_not_empty<R: Real>(knots: Seq<R>, degree: nat) -> bool {
    knots[knots.len() - degree - 2].less_spec(knots[knots.len() - degree - 1])
}

/// The error that a parameter outside of the knots' domain gives, tested in
/// this order: below the first knot, above the last, infinite, undefined.
pub open spec fn domain_error<R: Real>(knots: Seq<R>, u: R) -> Option<BasisFunctionError> {
    if u.less_spec(knots[0]) {
        Some(BasisFunctionError::ULessThanMin)
    } else if knots[knots.len() - 1].less_spec(u) {
        Some(BasisFunctionError::UGreaterThanMax)
    } else if u.is_infinite_spec() {
        Some(BasisFunctionError::UIsInfinite)
    } else if u.is_nan_spec() {
        Some(BasisFunctionError::UIsNon)
    } else {
        None
    }
}

/// An undefined parameter is refused as such, whatever the knots are.
pub proof fn lemma_undefined_is_refused<R: Real>(knots: Seq<R>, u: R)
    requires
        u.is_nan_spec(),
    ensures
        domain_error(knots, u) == Some(BasisFunctionError::UIsNon),
{
    R::order_laws(u, knots[0], knots[knots.len() - 1]);
    R::order_laws(knots[knots.len() - 1], u, u);
}

/// `u` is a finite number between the first and the last knot, both included.
pub open spec fn in_domain<R: Real>(knots: Seq<R>, u: R) -> bool {
    domain_error(knots, u) is None
}

/// `i` is the knot span of `u`: `knots[i] <= u < knots[i + 1]` with `i` among
/// the spans `degree ..= n` that carry basis functions, where `n` is the index
/// of the last control point. A parameter equal to the last knot belongs to
/// the last span `n`.
pub open spec fn is_span<R: Real>(knots: Seq<R>, degree: nat, u: R, i: int) -> bool {
    if knots[knots.len() - 1].equal_spec(u) {
        i == knots.len() - degree - 2
    } else {
        &&& degree <= i <= knots.len() - degree - 2
        &&& at_most(knots[i], u)
        &&& u.less_spec(knots[i + 1])
    }
}

/// A parameter has at most one knot span in a non-decreasing knot vector.
pub proof fn lemma_span_unique<R: Real>(knots: Seq<R>, degree: nat, u: R, i: int, j: int)
    requires
        non_decreasing(knots),
        knots.len() >= 2 * degree + 2,
        is_span(knots, degree, u, i),
        is_span(knots, degree, u, j),
    ensures
        i == j,
{
    if !knots[knots.len() - 1].equal_spec(u) {
        if i < j {
            // knots[i + 1] <= knots[j] <= u < knots[i + 1]
            assert(at_most(knots[i + 1], knots[j]));
            R::order_laws(knots[i + 1], knots[j], u);
            R::order_laws(knots[j], u, knots[i + 1]);
            R::order_laws(knots[i + 1], u, knots[i + 1]);
            R::order_laws(u, knots[i + 1], u);
        } else if j < i {
            assert(at_most(knots[j + 1], knots[i]));
            R::order_laws(knots[j + 1], knots[i], u);
            R::order_laws(knots[i], u, knots[j + 1]);
            R::order_laws(knots[j + 1], u, knots[j + 1]);
            R::order_laws(u, knots[j + 1], u);
        }
    }
}

/// The span of a parameter is not empty, where the last span is not.
pub proof fn lemma_span_not_empty<R: Real>(knots: Seq<R>, degree: nat, u: R, i: int)
    requires
        last_span_not_empty(knots, degree),
        is_span(knots, degree, u, i),
    ensures
        knots[i].less_spec(knots[i + 1]),
{
    R::order_laws(knots[i], u, knots[i + 1]);
}

/// The knot span of `u`; it is the only one where the knots are well formed
/// and `u` is in the domain.
pub open spec fn span_of<R: Real>(knots: Seq<R>, degree: nat, u: R) -> int {
    choose|i: int| is_span(knots, degree, u, i)
}

/// In a well-formed knot vector a span of `u` is the span of `u`.
pub proof fn lemma_span_of<R: Real>(knots: Seq<R>, degree: nat, u: R, i: int)
    requires
        well_formed(knots, degree),
        is_span(knots, degree, u, i),
    ensures
        span_of(knots, degree, u) == i,
{
    lemma_span_unique(knots, degree, u, i, span_of(knots, degree, u));
}

impl<R: Real> Knots<R> {
    /// Wraps a sequence of knots as it is; nothing is checked.
    pub fn new(v: Vec<R>) -> (knots: Self)
        ensures
            knots@ == v@,
    {
        Knots(v)
    }

    /// The number of knots.
    pub fn length(&self) -> (len: usize)
        ensures
            len == self@.len(),
    {
        self.0.len()
    }

    /// The index of the last knot.
    pub fn m(&self) -> (m: usize)
        requires
            self@.len() > 0,
        ensures
            m == self@.len() - 1,
    {
        self.0.len() - 1
    }

    /// The knot at `index`.
    pub fn index(&self, index: usize) -> (knot: R)
        requires
            index < self@.len(),
        ensures
            knot == self@[index as int],
    {
        self.0[index]
    }

    /// Tests whether the knots are well formed for `degree`, so that a
    /// caller who got them from elsewhere can tell before evaluating.
    pub fn is_well_formed(&self, degree: usize) -> (b: bool)
        ensures
            b == well_formed(self@, degree as nat),
    {
        let len = self.0.len();
        if len < 2 || degree > (len - 2) / 2 {
            return false;
        }
        let mut i: usize = 1;
        while i < len
            invariant
                1 <= i <= len,
                len == self@.len(),
                forall|a: int, b: int|
                    0 <= a < b < i ==> at_most(#[trigger] self@[a], #[trigger] self@[b]),
            decreases len - i,
        {
            let below = self.0[i - 1];
            let above = self.0[i];
            if !(below.less(above) || below.equal(above)) {
                assert(!at_most(self@[i - 1], self@[i as int]));
                return false;
            }
            proof {
                let k = self@;
                assert forall|a: int, b: int| 0 <= a < b < i + 1 implies at_most(
                    #[trigger] k[a],
                    #[trigger] k[b],
                ) by {
                    if b == i && a < i - 1 {
                        R::order_laws(k[a], k[i - 1], k[i as int]);
                    }
                }
            }
            i += 1;
        }
        proof {
            let k = self@;
            assert forall|a: int, b: int| 0 <= a <= b < k.len() implies at_most(
                #[trigger] k[a],
                #[trigger] k[b],
            ) by {
                if a == b {
                    if a == 0 {
                        R::order_laws(k[0], k[1], k[0]);
                    } else {
                        R::order_laws(k[a - 1], k[a], k[a]);
                        R::order_laws(k[a], k[a], k[a]);
                    }
                }
            }
            assert(non_decreasing(k));
        }
        let mut i: usize = 0;
        while i <= degree
            invariant
                i <= degree + 1,
                2 * degree + 2 <= len == self@.len(),
                forall|t: int| 0 <= t < i ==> (#[trigger] self@[t]).equal_spec(self@[0]),
                forall|t: int|
                    len - 1 - degree <= t < len - 1 - degree + i ==> (#[trigger] self@[t]).equal_spec(
                        self@[len - 1],
                    ),
            decreases degree + 1 - i,
        {
            if !self.0[i].equal(self.0[0]) {
                return false;
            }
            if !self.0[len - 1 - degree + i].equal(self.0[len - 1]) {
                return false;
            }
            i += 1;
        }
        true
    }

    /// Finds the knot span of `u` by binary search over the spans
    /// `degree ..= n`.
    ///
    /// Fails exactly when `u` is outside of the domain, with the error that
    /// `domain_error` names.
    pub fn find_span(&self, degree: usize, u: R) -> (res: Result<usize, BasisFunctionError>)
        requires
            well_formed(self@, degree as nat),
        ensures
            match domain_error(self@, u) {
                Some(e) => res == Err::<usize, BasisFunctionError>(e),
                None => res is Ok && is_span(self@, degree as nat, u, res->Ok_0 as int)
                    && res->Ok_0 == span_of(self@, degree as nat, u),
            },
    {
        let m = self.m();
        let first = self.0[0];
        let last = self.0[m];
        if u.less(first) {
            return Err(BasisFunctionError::ULessThanMin);
        }
        if last.less(u) {
            return Err(BasisFunctionError::UGreaterThanMax);
        }
        if u.is_infinite() {
            return Err(BasisFunctionError::UIsInfinite);
        }
        if u.is_nan() {
            return Err(BasisFunctionError::UIsNon);
        }
        let n = m - degree - 1;
        if last.equal(u) {
            proof {
                lemma_span_of(self@, degree as nat, u, n as int);
            }
            return Ok(n);
        }
        let mut low = degree;
        let mut high = n + 1;
        let mut mid = low + (high - low) / 2;
        proof {
            let k = self@;
            assert(k[degree as int].equal_spec(k[0]));
            assert(k[high as int].equal_spec(k[m as int]));
            R::order_laws(k[0], k[0], u);
            R::order_laws(u, k[degree as int], k[0]);
            R::order_laws(u, last, u);
            R::order_laws(k[high as int], last, u);
            R::order_laws(u, last, k[high as int]);
            R::order_laws(last, k[high as int], last);
        }
        while u.less(self.0[mid]) || self.0[mid + 1].less(u) || self.0[mid + 1].equal(u)
            invariant
                well_formed(self@, degree as nat),
                m == self@.len() - 1,
                n == m - degree - 1,
                degree <= low <= mid < high <= n + 1,
                mid == low + (high - low) / 2,
                !u.is_nan_spec(),
                !self@[m as int].equal_spec(u),
                !u.less_spec(self@[low as int]),
                u.less_spec(self@[high as int]),
            decreases high - low,
        {
            proof {
                let k = self@;
                R::order_laws(u, k[mid + 1], u);
                R::order_laws(k[mid + 1], u, k[mid + 1]);
            }
            if u.less(self.0[mid]) {
                high = mid;
            } else {
                low = mid;
            }
            mid = low + (high - low) / 2;
        }
        proof {
            let k = self@;
            assert(at_most(k[mid as int], k[mid as int]));
            R::order_laws(k[mid as int], k[mid as int], u);
            R::order_laws(k[mid as int], u, k[mid as int]);
            R::order_laws(u, k[mid as int], u);
            R::order_laws(k[mid + 1], k[mid + 1], u);
            assert(at_most(k[mid + 1], k[mid + 1]));
            R::order_laws(u, k[mid + 1], u);
            lemma_span_of(k, degree as nat, u, mid as int);
        }
        Ok(mid)
    }
}

} // verus!
