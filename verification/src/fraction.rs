//! An exact scalar: fractions of machine integers.
use vstd::prelude::*;

use crate::exact::algebra::{
    lemma_add_quotients, lemma_divide_quotients, lemma_multiply_quotients,
    lemma_order_quotients, lemma_units, lemma_whole_product, product, quotient,
};
use crate::basis_function::knots::{is_span, last_span_not_empty, well_formed};
use crate::exact::{basis_sum, exact, lemma_partition_of_unity_in_span, values_defined};
use crate::scalar::{Real, MAX_EXACT_COUNT};

verus! {

/// A fraction `num / den` of two machine integers, as a scalar whose
/// arithmetic does not round.
///
/// A fraction with a denominator that is not positive is undefined. An
/// operation on an undefined operand hands that operand on, and an operation
/// whose exact result does not fit the integers, or a division by zero,
/// gives the undefined fraction `0 / 0`. Fractions are not reduced: `1 / 2`
/// and `2 / 4` are numerically equal without being the same value.
#[derive(Clone, Copy, Debug)]
pub struct Fraction {
    pub num: i64,
    pub den: i64,
}

/// The fraction `n / d` where both fit, and `0 / 0` where they do not.
pub open spec fn fraction_of(n: int, d: int) -> Fraction {
    if i64::MIN <= n <= i64::MAX && 0 < d <= i64::MAX {
        Fraction { num: n as i64, den: d as i64 }
    } else {
        Fraction { num: 0, den: 0 }
    }
}

/// The count `n` as a machine integer, or the largest one where `n` is
/// larger.
pub open spec fn saturated(n: usize) -> i64 {
    if n <= i64::MAX {
        n as i64
    } else {
        i64::MAX
    }
}

impl Fraction {
    /// The fraction `num / den`.
    pub fn new(num: i64, den: i64) -> (r: Self)
        ensures
            r == (Fraction { num, den }),
    {
        Fraction { num, den }
    }

    /// The denominator is positive.
    pub open spec fn defined(self) -> bool {
        self.den > 0
    }

    fn of(n: i128, d: i128) -> (r: Self)
        ensures
            r == fraction_of(n as int, d as int),
    {
        if -0x8000_0000_0000_0000 <= n && n <= 0x7fff_ffff_ffff_ffff && 0 < d && d
            <= 0x7fff_ffff_ffff_ffff {
            Fraction { num: n as i64, den: d as i64 }
        } else {
            Fraction { num: 0, den: 0 }
        }
    }
}

/// A product of two machine integers stays inside of the wide integers, and
/// with a positive factor so far inside that two such products can be added.
proof fn lemma_product_bound(x: int, y: int)
    requires
        i64::MIN <= x <= i64::MAX,
        i64::MIN <= y <= i64::MAX,
    ensures
        -0x4000_0000_0000_0000_0000_0000_0000_0000 <= x * y
            <= 0x4000_0000_0000_0000_0000_0000_0000_0000,
        0 < y ==> -0x3fff_ffff_ffff_ffff_8000_0000_0000_0000 <= x * y
            <= 0x3fff_ffff_ffff_ffff_8000_0000_0000_0000,
{
    assert(-0x4000_0000_0000_0000_0000_0000_0000_0000 <= x * y
        <= 0x4000_0000_0000_0000_0000_0000_0000_0000) by (nonlinear_arith)
        requires
            -0x8000_0000_0000_0000 <= x <= 0x8000_0000_0000_0000,
            -0x8000_0000_0000_0000 <= y <= 0x8000_0000_0000_0000,
    ;
    if 0 < y {
        assert(-0x8000_0000_0000_0000 * 0x7fff_ffff_ffff_ffff <= x * y <= 0x7fff_ffff_ffff_ffff
            * 0x7fff_ffff_ffff_ffff) by (nonlinear_arith)
            requires
                -0x8000_0000_0000_0000 <= x <= 0x7fff_ffff_ffff_ffff,
                0 < y <= 0x7fff_ffff_ffff_ffff,
        ;
    }
}

/// The product of two machine integers, computed in the wide integers.
fn wide_product(x: i64, y: i64) -> (r: i128)
    ensures
        r == x * y,
        -0x4000_0000_0000_0000_0000_0000_0000_0000 <= r
            <= 0x4000_0000_0000_0000_0000_0000_0000_0000,
        0 < y ==> -0x3fff_ffff_ffff_ffff_8000_0000_0000_0000 <= r
            <= 0x3fff_ffff_ffff_ffff_8000_0000_0000_0000,
{
    proof {
        lemma_product_bound(x as int, y as int);
    }
    (x as i128) * (y as i128)
}

impl Real for Fraction {
    open spec fn zero_spec() -> Self {
        Fraction { num: 0, den: 1 }
    }

    open spec fn one_spec() -> Self {
        Fraction { num: 1, den: 1 }
    }

    open spec fn from_usize_spec(n: usize) -> Self {
        Fraction { num: saturated(n), den: 1 }
    }

    open spec fn plus_spec(self, rhs: Self) -> Self {
        if !self.defined() {
            self
        } else if !rhs.defined() {
            rhs
        } else {
            fraction_of(self.num * rhs.den + rhs.num * self.den, self.den * rhs.den)
        }
    }

    open spec fn minus_spec(self, rhs: Self) -> Self {
        if !self.defined() {
            self
        } else if !rhs.defined() {
            rhs
        } else {
            fraction_of(self.num * rhs.den - rhs.num * self.den, self.den * rhs.den)
        }
    }

    open spec fn times_spec(self, rhs: Self) -> Self {
        if !self.defined() {
            self
        } else if !rhs.defined() {
            rhs
        } else {
            fraction_of(self.num * rhs.num, self.den * rhs.den)
        }
    }

    open spec fn over_spec(self, rhs: Self) -> Self {
        if !self.defined() {
            self
        } else if !rhs.defined() {
            rhs
        } else if rhs.num > 0 {
            fraction_of(self.num * rhs.den, self.den * rhs.num)
        } else if rhs.num < 0 {
            fraction_of(-(self.num * rhs.den), -(self.den * rhs.num))
        } else {
            Fraction { num: 0, den: 0 }
        }
    }

    open spec fn negated_spec(self) -> Self {
        if !self.defined() {
            self
        } else {
            fraction_of(-self.num, self.den as int)
        }
    }

    open spec fn less_spec(self, rhs: Self) -> bool {
        self.defined() && rhs.defined() && self.num * rhs.den < rhs.num * self.den
    }

    open spec fn equal_spec(self, rhs: Self) -> bool {
        self.defined() && rhs.defined() && self.num * rhs.den == rhs.num * self.den
    }

    open spec fn is_nan_spec(self) -> bool {
        !self.defined()
    }

    open spec fn is_infinite_spec(self) -> bool {
        false
    }

    fn zero() -> Self {
        Fraction { num: 0, den: 1 }
    }

    fn one() -> Self {
        Fraction { num: 1, den: 1 }
    }

    fn from_usize(n: usize) -> Self {
        if (n as u64) <= 0x7fff_ffff_ffff_ffff {
            Fraction { num: n as i64, den: 1 }
        } else {
            Fraction { num: 0x7fff_ffff_ffff_ffff, den: 1 }
        }
    }

    fn plus(self, rhs: Self) -> Self {
        if self.den <= 0 {
            self
        } else if rhs.den <= 0 {
            rhs
        } else {
            Self::of(
                wide_product(self.num, rhs.den) + wide_product(rhs.num, self.den),
                wide_product(self.den, rhs.den),
            )
        }
    }

    fn minus(self, rhs: Self) -> Self {
        if self.den <= 0 {
            self
        } else if rhs.den <= 0 {
            rhs
        } else {
            Self::of(
                wide_product(self.num, rhs.den) - wide_product(rhs.num, self.den),
                wide_product(self.den, rhs.den),
            )
        }
    }

    fn times(self, rhs: Self) -> Self {
        if self.den <= 0 {
            self
        } else if rhs.den <= 0 {
            rhs
        } else {
            Self::of(wide_product(self.num, rhs.num), wide_product(self.den, rhs.den))
        }
    }

    fn over(self, rhs: Self) -> Self {
        if self.den <= 0 {
            self
        } else if rhs.den <= 0 {
            rhs
        } else if rhs.num > 0 {
            Self::of(wide_product(self.num, rhs.den), wide_product(self.den, rhs.num))
        } else if rhs.num < 0 {
            Self::of(-wide_product(self.num, rhs.den), -wide_product(self.den, rhs.num))
        } else {
            Fraction { num: 0, den: 0 }
        }
    }

    fn negated(self) -> Self {
        if self.den <= 0 {
            self
        } else {
            Self::of(-(self.num as i128), self.den as i128)
        }
    }

    fn less(self, rhs: Self) -> bool {
        self.den > 0 && rhs.den > 0 && wide_product(self.num, rhs.den) < wide_product(
            rhs.num,
            self.den,
        )
    }

    fn equal(self, rhs: Self) -> bool {
        self.den > 0 && rhs.den > 0 && wide_product(self.num, rhs.den) == wide_product(
            rhs.num,
            self.den,
        )
    }

    fn is_nan(self) -> bool {
        self.den <= 0
    }

    fn is_infinite(self) -> bool {
        false
    }

    proof fn order_laws(a: Self, b: Self, c: Self) {
        if a.defined() && b.defined() && c.defined() {
            let (an, ad) = (a.num as int, a.den as int);
            let (bn, bd) = (b.num as int, b.den as int);
            let (cn, cd) = (c.num as int, c.den as int);
            assert(an * bd < bn * ad && bn * cd < cn * bd ==> an * cd < cn * ad)
                by (nonlinear_arith)
                requires
                    ad > 0,
                    bd > 0,
                    cd > 0,
            ;
            assert(an * bd == bn * ad && bn * cd == cn * bd ==> an * cd == cn * ad)
                by (nonlinear_arith)
                requires
                    ad > 0,
                    bd > 0,
                    cd > 0,
            ;
            assert(an * bd == bn * ad && bn * cd < cn * bd ==> an * cd < cn * ad)
                by (nonlinear_arith)
                requires
                    ad > 0,
                    bd > 0,
                    cd > 0,
            ;
            assert(an * bd < bn * ad && bn * cd == cn * bd ==> an * cd < cn * ad)
                by (nonlinear_arith)
                requires
                    ad > 0,
                    bd > 0,
                    cd > 0,
            ;
        }
    }

    proof fn unit_laws(a: Self) {
        assert(a.num * 1 == a.num && a.den * 1 == a.den);
    }

    proof fn ratio_laws(i: usize, j: usize, n: usize) {
        let (x, y, z) = (saturated(i) as int, saturated(j) as int, saturated(n) as int);
        assert(0 <= x <= y <= z && 0 < z);
        assert(x * 1 == x && y * 1 == y && 1 * z == z && z * 1 == z && 0 * z == 0);
        assert(x * z <= y * z) by (nonlinear_arith)
            requires
                x <= y,
                0 < z,
        ;
        if i < j && n <= MAX_EXACT_COUNT {
            assert(x * z < y * z) by (nonlinear_arith)
                requires
                    x < y,
                    0 < z,
            ;
        }
    }
}

impl Fraction {
    /// The real number that the fraction is, where it is defined.
    pub open spec fn value(self) -> real {
        quotient(self.num as real, self.den as real)
    }
}

/// A defined sum or difference of fractions has defined operands and is
/// their sum or difference as real numbers.
pub proof fn lemma_sum_is_exact(a: Fraction, b: Fraction)
    ensures
        a.plus_spec(b).defined() ==> a.defined() && b.defined() && a.plus_spec(b).value()
            == a.value() + b.value(),
        a.minus_spec(b).defined() ==> a.defined() && b.defined() && a.minus_spec(b).value()
            == a.value() - b.value(),
{
    if a.defined() && b.defined() {
        lemma_whole_product(a.num as int, b.den as int);
        lemma_whole_product(b.num as int, a.den as int);
        lemma_whole_product(a.den as int, b.den as int);
        lemma_add_quotients(a.num as real, a.den as real, b.num as real, b.den as real);
    }
}

/// A defined product of fractions has defined factors and is their product
/// as real numbers.
pub proof fn lemma_product_is_exact(a: Fraction, b: Fraction)
    ensures
        a.times_spec(b).defined() ==> a.defined() && b.defined() && a.times_spec(b).value()
            == product(a.value(), b.value()),
{
    if a.defined() && b.defined() {
        lemma_whole_product(a.num as int, b.num as int);
        lemma_whole_product(a.den as int, b.den as int);
        lemma_multiply_quotients(a.num as real, a.den as real, b.num as real, b.den as real);
    }
}

/// A defined quotient of fractions has defined operands and a divisor other
/// than zero, and is their quotient as real numbers.
pub proof fn lemma_quotient_is_exact(a: Fraction, b: Fraction)
    ensures
        a.over_spec(b).defined() ==> a.defined() && b.defined() && b.value() != 0real
            && a.over_spec(b).value() == quotient(a.value(), b.value()),
{
    if a.defined() && b.defined() && b.num != 0 {
        lemma_whole_product(a.num as int, b.den as int);
        lemma_whole_product(a.den as int, b.num as int);
        lemma_divide_quotients(a.num as real, a.den as real, b.num as real, b.den as real);
    }
}

/// Fractions compare as the real numbers that they are.
pub proof fn lemma_comparison_is_exact(a: Fraction, b: Fraction)
    ensures
        a.less_spec(b) ==> a.value() < b.value(),
        a.equal_spec(b) ==> a.value() == b.value(),
{
    if a.defined() && b.defined() {
        lemma_whole_product(a.num as int, b.den as int);
        lemma_whole_product(b.num as int, a.den as int);
        lemma_order_quotients(a.num as real, a.den as real, b.num as real, b.den as real);
    }
}

/// The reading of every fraction as the real number that it is.
pub open spec fn fraction_value() -> spec_fn(Fraction) -> real {
    |f: Fraction| f.value()
}

/// The arithmetic of fractions is exact: every defined result is the result
/// for the real numbers that the fractions are.
pub proof fn lemma_fraction_is_exact()
    ensures
        exact(fraction_value()),
{
    let val = fraction_value();
    lemma_units(0real);
    lemma_units(1real);
    assert forall|a: Fraction, b: Fraction| !(#[trigger] a.plus_spec(b)).is_nan_spec() implies {
        &&& !a.is_nan_spec()
        &&& !b.is_nan_spec()
        &&& val(a.plus_spec(b)) == val(a) + val(b)
    } by {
        lemma_sum_is_exact(a, b);
    }
    assert forall|a: Fraction, b: Fraction| !(#[trigger] a.minus_spec(b)).is_nan_spec() implies {
        &&& !a.is_nan_spec()
        &&& !b.is_nan_spec()
        &&& val(a.minus_spec(b)) == val(a) - val(b)
    } by {
        lemma_sum_is_exact(a, b);
    }
    assert forall|a: Fraction, b: Fraction| !(#[trigger] a.times_spec(b)).is_nan_spec() implies {
        &&& !a.is_nan_spec()
        &&& !b.is_nan_spec()
        &&& val(a.times_spec(b)) == product(val(a), val(b))
    } by {
        lemma_product_is_exact(a, b);
    }
    assert forall|a: Fraction, b: Fraction| !(#[trigger] a.over_spec(b)).is_nan_spec() implies {
        &&& !a.is_nan_spec()
        &&& !b.is_nan_spec()
        &&& val(b) != 0real
        &&& val(a.over_spec(b)) == quotient(val(a), val(b))
    } by {
        lemma_quotient_is_exact(a, b);
    }
    assert forall|a: Fraction, b: Fraction| #[trigger] a.less_spec(b) implies val(a) < val(b) by {
        lemma_comparison_is_exact(a, b);
    }
    assert forall|a: Fraction, b: Fraction| #[trigger] a.equal_spec(b) implies val(a) == val(
        b,
    ) by {
        lemma_comparison_is_exact(a, b);
    }
}

/// Partition of unity for fractions: on the span of a parameter, the
/// basis-function values sum to one as far as the integers hold them.
pub proof fn lemma_fraction_partition_of_unity(
    knots: Seq<Fraction>,
    u: Fraction,
    degree: nat,
    i: int,
)
    requires
        well_formed(knots, degree),
        last_span_not_empty(knots, degree),
        is_span(knots, degree, u, i),
        values_defined(knots, u, i, degree),
    ensures
        basis_sum(fraction_value(), knots, u, i, degree, degree + 1) == 1real,
{
    lemma_fraction_is_exact();
    lemma_partition_of_unity_in_span(fraction_value(), knots, u, degree, i);
}

} // verus!
