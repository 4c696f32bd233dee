//! The arithmetic of real numbers that the identities of exact evaluation
//! rest on.
//!
//! Products and quotients are kept behind names, so that a proof only meets
//! the few laws of real arithmetic that it calls for.
use vstd::prelude::*;

verus! {

/// The product of two real numbers.
#[verifier::opaque]
pub open spec fn product(x: real, y: real) -> real {
    x * y
}

/// The quotient of two real numbers.
#[verifier::opaque]
pub open spec fn quotient(x: real, y: real) -> real {
    x / y
}

/// A product does not depend on the order of its factors.
pub proof fn lemma_commutes(x: real, y: real)
    ensures
        product(x, y) == product(y, x),
{
    reveal(product);
    assert(x * y == y * x) by (nonlinear_arith);
}

/// A product with a sum is the sum of the products.
pub proof fn lemma_distributes(x: real, y: real, z: real)
    ensures
        product(x, y + z) == product(x, y) + product(x, z),
{
    reveal(product);
    assert(x * (y + z) == x * y + x * z) by (nonlinear_arith);
}

/// The two outer factors of a product of three may change places.
pub proof fn lemma_swaps(x: real, y: real, z: real)
    ensures
        product(x, product(y, z)) == product(y, product(x, z)),
{
    reveal(product);
    assert(x * (y * z) == y * (x * z)) by (nonlinear_arith);
}

/// Products with zero and one, and quotients by one.
pub proof fn lemma_units(x: real)
    ensures
        product(x, 0real) == 0real,
        product(x, 1real) == x,
        quotient(x, 1real) == x,
{
    reveal(product);
    reveal(quotient);
    assert(x * 0real == 0real && x * 1real == x && x / 1real == x) by (nonlinear_arith);
}

/// A quotient times its divisor is the dividend.
pub proof fn lemma_divides(x: real, y: real)
    requires
        y != 0real,
    ensures
        product(quotient(x, y), y) == x,
{
    reveal(product);
    reveal(quotient);
    assert((x / y) * y == x) by (nonlinear_arith)
        requires
            y != 0real,
    ;
}

/// Dividing a product by the factor that made it gives the other factor.
pub proof fn lemma_cancel(p: real, w: real)
    requires
        w != 0real,
    ensures
        quotient(product(p, w), w) == p,
{
    reveal(product);
    reveal(quotient);
    assert((p * w) / w == p) by (nonlinear_arith)
        requires
            w != 0real,
    ;
}

/// The two parts that a share is split into add up to the whole that it is
/// a share of.
pub proof fn lemma_share_parts(upper: real, lower: real, at: real, whole: real)
    requires
        upper - lower > 0real,
    ensures
        product(upper - at, quotient(whole, upper - lower)) + product(
            at - lower,
            quotient(whole, upper - lower),
        ) == whole,
{
    let share = quotient(whole, upper - lower);
    lemma_commutes(upper - at, share);
    lemma_commutes(at - lower, share);
    lemma_distributes(share, upper - at, at - lower);
    assert((upper - at) + (at - lower) == upper - lower);
    lemma_divides(whole, upper - lower);
}

/// Adding one more point to both sums of the lower order adds it, weighted
/// by the mix of its two weights, to the mix of the sums.
pub proof fn lemma_mix(at: real, same: real, next: real, c: real, left: real, above: real)
    ensures
        product(1real - at, same) + product(at, next) + product(
            c,
            product(at, left) + product(1real - at, above),
        ) == product(1real - at, same + product(c, above)) + product(at, next + product(c, left)),
        product(same, 1real - at) + product(next + product(c, left), at) == product(
            1real - at,
            same,
        ) + product(at, next) + product(c, product(at, left)),
{
    lemma_distributes(c, product(at, left), product(1real - at, above));
    lemma_swaps(c, at, left);
    lemma_swaps(c, 1real - at, above);
    lemma_distributes(1real - at, same, product(c, above));
    lemma_distributes(at, next, product(c, left));
    lemma_commutes(same, 1real - at);
    lemma_commutes(next + product(c, left), at);
}

/// A product of three may be taken in either grouping.
pub proof fn lemma_groups(x: real, y: real, z: real)
    ensures
        product(product(x, y), z) == product(x, product(y, z)),
{
    reveal(product);
    assert((x * y) * z == x * (y * z)) by (nonlinear_arith);
}

/// A product changes its sign with either factor.
pub proof fn lemma_negates(x: real, y: real)
    ensures
        product(-x, y) == -product(x, y),
        product(x, -y) == -product(x, y),
{
    reveal(product);
    assert((-x) * y == -(x * y) && x * (-y) == -(x * y)) by (nonlinear_arith);
}

/// A product of two factors other than zero is not zero, and one of two
/// positive factors is positive.
pub proof fn lemma_signs(x: real, y: real)
    ensures
        x != 0real && y != 0real ==> product(x, y) != 0real,
        x > 0real && y > 0real ==> product(x, y) > 0real,
{
    reveal(product);
    assert(x != 0real && y != 0real ==> x * y != 0real) by (nonlinear_arith);
    assert(x > 0real && y > 0real ==> x * y > 0real) by (nonlinear_arith);
}

/// Products with one positive factor are in the order of their other
/// factors.
pub proof fn lemma_orders(x: real, y: real, d: real)
    requires
        d > 0real,
    ensures
        product(x, d) < product(y, d) ==> x < y,
        product(x, d) == product(y, d) ==> x == y,
{
    reveal(product);
    assert(x * d < y * d ==> x < y) by (nonlinear_arith)
        requires
            d > 0real,
    ;
    assert(x * d == y * d ==> x == y) by (nonlinear_arith)
        requires
            d > 0real,
    ;
}

/// The number that gives the dividend when it is multiplied by the divisor
/// is the quotient.
pub proof fn lemma_quotient_is(q: real, x: real, y: real)
    requires
        y != 0real,
        product(q, y) == x,
    ensures
        quotient(x, y) == q,
{
    lemma_cancel(q, y);
}

/// The product of two whole numbers is the product of the real numbers that
/// they are.
pub proof fn lemma_whole_product(x: int, y: int)
    ensures
        (x * y) as real == product(x as real, y as real),
{
    reveal(product);
    assert((x * y) as real == (x as real) * (y as real)) by (nonlinear_arith);
}

/// Fractions are added over the product of their denominators.
pub proof fn lemma_add_quotients(n1: real, d1: real, n2: real, d2: real)
    requires
        d1 != 0real,
        d2 != 0real,
    ensures
        quotient(product(n1, d2) + product(n2, d1), product(d1, d2)) == quotient(n1, d1)
            + quotient(n2, d2),
        quotient(product(n1, d2) - product(n2, d1), product(d1, d2)) == quotient(n1, d1)
            - quotient(n2, d2),
{
    let q1 = quotient(n1, d1);
    let q2 = quotient(n2, d2);
    let dd = product(d1, d2);
    lemma_divides(n1, d1);
    lemma_divides(n2, d2);
    lemma_signs(d1, d2);
    // q1 * (d1 * d2) == n1 * d2
    lemma_groups(q1, d1, d2);
    // q2 * (d1 * d2) == n2 * d1
    lemma_swaps(q2, d1, d2);
    lemma_commutes(d1, n2);
    lemma_commutes(dd, q1);
    lemma_commutes(dd, q2);
    lemma_distributes(dd, q1, q2);
    lemma_commutes(dd, q1 + q2);
    lemma_quotient_is(q1 + q2, product(n1, d2) + product(n2, d1), dd);
    lemma_negates(dd, q2);
    lemma_distributes(dd, q1, -q2);
    lemma_commutes(dd, q1 - q2);
    assert(q1 + (-q2) == q1 - q2);
    lemma_quotient_is(q1 - q2, product(n1, d2) - product(n2, d1), dd);
}

/// Fractions are multiplied numerator by numerator and denominator by
/// denominator.
pub proof fn lemma_multiply_quotients(n1: real, d1: real, n2: real, d2: real)
    requires
        d1 != 0real,
        d2 != 0real,
    ensures
        quotient(product(n1, n2), product(d1, d2)) == product(quotient(n1, d1), quotient(n2, d2)),
{
    let q1 = quotient(n1, d1);
    let q2 = quotient(n2, d2);
    lemma_divides(n1, d1);
    lemma_divides(n2, d2);
    lemma_signs(d1, d2);
    // (q1 * q2) * (d1 * d2) == q1 * (q2 * (d1 * d2)) == q1 * (d1 * n2) == n1 * n2
    lemma_groups(q1, q2, product(d1, d2));
    lemma_swaps(q2, d1, d2);
    lemma_groups(q1, d1, n2);
    lemma_quotient_is(product(q1, q2), product(n1, n2), product(d1, d2));
}

/// A fraction is divided by another one that is not zero by multiplying
/// crosswise.
pub proof fn lemma_divide_quotients(n1: real, d1: real, n2: real, d2: real)
    requires
        d1 != 0real,
        d2 != 0real,
        n2 != 0real,
    ensures
        quotient(n2, d2) != 0real,
        quotient(product(n1, d2), product(d1, n2)) == quotient(quotient(n1, d1), quotient(n2, d2)),
        quotient(-product(n1, d2), -product(d1, n2)) == quotient(
            quotient(n1, d1),
            quotient(n2, d2),
        ),
{
    let q1 = quotient(n1, d1);
    let q2 = quotient(n2, d2);
    lemma_divides(n1, d1);
    lemma_divides(n2, d2);
    lemma_units(d2);
    lemma_commutes(0real, d2);
    assert(q2 != 0real);
    let q = quotient(q1, q2);
    lemma_divides(q1, q2);
    lemma_signs(d1, n2);
    // q * (d1 * n2) == d1 * (q * n2) == d1 * ((q * q2) * d2) == d1 * (q1 * d2)
    //   == q1 * (d1 * d2) == n1 * d2
    lemma_swaps(q, d1, n2);
    lemma_groups(q, q2, d2);
    lemma_swaps(d1, q1, d2);
    lemma_groups(q1, d1, d2);
    lemma_quotient_is(q, product(n1, d2), product(d1, n2));
    lemma_negates(q, product(d1, n2));
    lemma_quotient_is(q, -product(n1, d2), -product(d1, n2));
}

/// Fractions with positive denominators are in the order of their
/// numerators multiplied crosswise.
pub proof fn lemma_order_quotients(n1: real, d1: real, n2: real, d2: real)
    requires
        d1 > 0real,
        d2 > 0real,
    ensures
        product(n1, d2) < product(n2, d1) ==> quotient(n1, d1) < quotient(n2, d2),
        product(n1, d2) == product(n2, d1) ==> quotient(n1, d1) == quotient(n2, d2),
{
    let q1 = quotient(n1, d1);
    let q2 = quotient(n2, d2);
    lemma_divides(n1, d1);
    lemma_divides(n2, d2);
    lemma_signs(d1, d2);
    // n1 * d2 == q1 * (d1 * d2) and n2 * d1 == q2 * (d1 * d2)
    lemma_groups(q1, d1, d2);
    lemma_swaps(q2, d1, d2);
    lemma_commutes(d1, n2);
    lemma_orders(q1, q2, product(d1, d2));
}

} // verus!
