//! The scalar interface that all evaluation is written against.
use vstd::prelude::*;

verus! {

/// The largest count whose fractions a scalar need tell apart: below it the
/// conversion of a count and the division of two counts lose nothing that
/// would make two different fractions of one count equal.
pub const MAX_EXACT_COUNT: usize = 0xffff_ffff;

/// A scalar with the four arithmetic operations, a comparison and the two
/// exceptional classes of machine reals (undefined and infinite values).
///
/// Every operation is total and is a function of its operands alone: the
/// executable method returns exactly the value that its `_spec` twin names.
/// Nothing is assumed about rounding; the arithmetic need not be associative
/// or distributive. What is asked of it is in the three laws at the end of
/// the trait: the comparison is a total order on the defined scalars, one is
/// a unit, and the fractions of a count are in order.
///
/// [`Fraction`](crate::fraction::Fraction) is such a scalar, with exact
/// arithmetic. Floating-point numbers are one as well; an implementation
/// written outside of verified code gives each `_spec` function the same
/// body as the executable method and leaves the laws empty, and it is then
/// the implementer's duty that they hold.
pub trait Real: Copy {
    /// The additive identity.
    spec fn zero_spec() -> Self;

    /// The multiplicative identity.
    spec fn one_spec() -> Self;

    /// The scalar nearest to the count `n`.
    spec fn from_usize_spec(n: usize) -> Self;

    spec fn plus_spec(self, rhs: Self) -> Self;

    spec fn minus_spec(self, rhs: Self) -> Self;

    spec fn times_spec(self, rhs: Self) -> Self;

    spec fn over_spec(self, rhs: Self) -> Self;

    spec fn negated_spec(self) -> Self;

    /// Strictly below `rhs`; false whenever either side is undefined.
    spec fn less_spec(self, rhs: Self) -> bool;

    /// Numerically equal to `rhs`; false whenever either side is undefined.
    /// Two representations of one number (a signed zero) are equal here
    /// without being the same value.
    spec fn equal_spec(self, rhs: Self) -> bool;

    /// Not a number: the result of an undefined operation.
    spec fn is_nan_spec(self) -> bool;

    /// Positive or negative infinity.
    spec fn is_infinite_spec(self) -> bool;

    fn zero() -> (r: Self)
        ensures
            r == Self::zero_spec(),
    ;

    fn one() -> (r: Self)
        ensures
            r == Self::one_spec(),
    ;

    fn from_usize(n: usize) -> (r: Self)
        ensures
            r == Self::from_usize_spec(n),
    ;

    fn plus(self, rhs: Self) -> (r: Self)
        ensures
            r == self.plus_spec(rhs),
    ;

    fn minus(self, rhs: Self) -> (r: Self)
        ensures
            r == self.minus_spec(rhs),
    ;

    fn times(self, rhs: Self) -> (r: Self)
        ensures
            r == self.times_spec(rhs),
    ;

    /// Division; dividing by zero yields an infinite or undefined value
    /// rather than failing.
    fn over(self, rhs: Self) -> (r: Self)
        ensures
            r == self.over_spec(rhs),
    ;

    fn negated(self) -> (r: Self)
        ensures
            r == self.negated_spec(),
    ;

    fn less(self, rhs: Self) -> (b: bool)
        ensures
            b == self.less_spec(rhs),
    ;

    fn equal(self, rhs: Self) -> (b: bool)
        ensures
            b == self.equal_spec(rhs),
    ;

    fn is_nan(self) -> (b: bool)
        ensures
            b == self.is_nan_spec(),
    ;

    fn is_infinite(self) -> (b: bool)
        ensures
            b == self.is_infinite_spec(),
    ;

    /// The defined scalars are totally ordered by `less_spec` up to
    /// `equal_spec`, and an undefined scalar compares with nothing and is
    /// not infinite.
    proof fn order_laws(a: Self, b: Self, c: Self)
        ensures
            a.is_nan_spec() ==> !a.is_infinite_spec(),
            a.less_spec(b) || a.equal_spec(b) ==> !a.is_nan_spec() && !b.is_nan_spec(),
            !a.is_nan_spec() ==> a.equal_spec(a),
            !a.is_nan_spec() && !b.is_nan_spec() ==> a.less_spec(b) || a.equal_spec(b)
                || b.less_spec(a),
            a.less_spec(b) ==> !a.equal_spec(b) && !b.less_spec(a),
            a.equal_spec(b) ==> b.equal_spec(a),
            a.less_spec(b) && b.less_spec(c) ==> a.less_spec(c),
            a.equal_spec(b) && b.equal_spec(c) ==> a.equal_spec(c),
            a.equal_spec(b) && b.less_spec(c) ==> a.less_spec(c),
            a.less_spec(b) && b.equal_spec(c) ==> a.less_spec(c),
    ;

    /// Zero lies strictly below one, and multiplying or dividing by one
    /// changes nothing.
    proof fn unit_laws(a: Self)
        ensures
            Self::zero_spec().less_spec(Self::one_spec()),
            a.times_spec(Self::one_spec()) == a,
            a.over_spec(Self::one_spec()) == a,
    ;

    /// The fractions `i / n` of a positive count `n` are defined, do not
    /// fall as `i` grows, start at zero and end at one. Up to
    /// `MAX_EXACT_COUNT` they rise strictly.
    proof fn ratio_laws(i: usize, j: usize, n: usize)
        requires
            i <= j <= n,
            0 < n,
        ensures
            ({
                let low = Self::from_usize_spec(i).over_spec(Self::from_usize_spec(n));
                let high = Self::from_usize_spec(j).over_spec(Self::from_usize_spec(n));
                &&& low.less_spec(high) || low.equal_spec(high)
                &&& i < j && n <= MAX_EXACT_COUNT ==> low.less_spec(high)
            }),
            Self::from_usize_spec(0).over_spec(Self::from_usize_spec(n)).equal_spec(
                Self::zero_spec(),
            ),
            Self::from_usize_spec(n).over_spec(Self::from_usize_spec(n)).equal_spec(
                Self::one_spec(),
            ),
    ;
}

/// The scalar that dividing the count `i` by the count `n` gives.
pub open spec fn ratio<R: Real>(i: usize, n: usize) -> R {
    R::from_usize_spec(i).over_spec(R::from_usize_spec(n))
}

/// `a` is below or equal to `b`.
pub open spec fn at_most<R: Real>(a: R, b: R) -> bool {
    a.less_spec(b) || a.equal_spec(b)
}

} // verus!
