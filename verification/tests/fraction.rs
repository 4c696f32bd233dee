use niubi::basics::algorithm::de_casteljaul;
use niubi::basics::ControlPoint;
use niubi::basis_function::{Basis, BasisFunctionError, BernsteinBasis, BsplineBasis};
use niubi::curve::{
    AbstructBezier, BsplineCurveBase, NonRationalCurve, NurbsCurveBase, ParametricCurve,
    RationalCurve,
};
use niubi::{Fraction, Real};

/// A point of the plane with exact coordinates.
#[derive(Clone, Copy, Debug)]
struct Q2 {
    x: Fraction,
    y: Fraction,
}

impl ControlPoint<Fraction> for Q2 {
    fn zeros_spec() -> Self {
        Q2 { x: Fraction::zero(), y: Fraction::zero() }
    }

    fn plus_spec(self, rhs: Self) -> Self {
        Q2 { x: self.x.plus(rhs.x), y: self.y.plus(rhs.y) }
    }

    fn minus_spec(self, rhs: Self) -> Self {
        Q2 { x: self.x.minus(rhs.x), y: self.y.minus(rhs.y) }
    }

    fn times_spec(self, s: Fraction) -> Self {
        Q2 { x: self.x.times(s), y: self.y.times(s) }
    }

    fn over_spec(self, s: Fraction) -> Self {
        Q2 { x: self.x.over(s), y: self.y.over(s) }
    }

    fn zeros() -> Self {
        Q2 { x: Fraction::zero(), y: Fraction::zero() }
    }

    fn plus(self, rhs: Self) -> Self {
        Q2 { x: self.x.plus(rhs.x), y: self.y.plus(rhs.y) }
    }

    fn minus(self, rhs: Self) -> Self {
        Q2 { x: self.x.minus(rhs.x), y: self.y.minus(rhs.y) }
    }

    fn times(self, s: Fraction) -> Self {
        Q2 { x: self.x.times(s), y: self.y.times(s) }
    }

    fn over(self, s: Fraction) -> Self {
        Q2 { x: self.x.over(s), y: self.y.over(s) }
    }

    fn unit_scaling(_p: Self) {}
}

fn q(num: i64, den: i64) -> Fraction {
    Fraction::new(num, den)
}

fn whole(n: i64) -> Fraction {
    Fraction::new(n, 1)
}

fn q2(x: i64, y: i64) -> Q2 {
    Q2 { x: whole(x), y: whole(y) }
}

fn same(p: Q2, x: Fraction, y: Fraction) -> bool {
    p.x.equal(x) && p.y.equal(y)
}

fn four_points() -> Vec<Q2> {
    vec![q2(200, 200), q2(300, 300), q2(500, 400), q2(600, 300)]
}

#[test]
fn fractions_are_computed_without_rounding() {
    let sum = q(1, 2).plus(q(1, 3));
    assert_eq!((sum.num, sum.den), (5, 6));
    let difference = q(1, 2).minus(q(1, 3));
    assert_eq!((difference.num, difference.den), (1, 6));
    let product = q(2, 3).times(q(-3, 4));
    assert_eq!((product.num, product.den), (-6, 12));
    let quotient = q(2, 3).over(q(-3, 4));
    assert_eq!((quotient.num, quotient.den), (-8, 9));
    let negative = q(2, 3).negated();
    assert_eq!((negative.num, negative.den), (-2, 3));
    assert!(q(1, 3).less(q(1, 2)));
    assert!(!q(1, 2).less(q(1, 3)));
    assert!(!q(1, 2).less(q(2, 4)));
    assert!(q(1, 2).equal(q(2, 4)));
    assert!(q(-1, 2).less(Fraction::zero()));
    assert!(Fraction::zero().less(Fraction::one()));
    let seven = Fraction::from_usize(7);
    assert_eq!((seven.num, seven.den), (7, 1));
    let most = Fraction::from_usize(usize::MAX);
    assert!(most.num > 0 && most.den == 1);
    assert!(!q(1, 2).is_nan());
    assert!(!q(1, 2).is_infinite());
}

#[test]
fn fractions_beyond_the_integers_are_undefined() {
    assert!(q(1, 2).over(Fraction::zero()).is_nan());
    assert!(q(1, 0).is_nan());
    assert!(q(1, -2).is_nan());
    let large = q(i64::MAX, 1);
    assert!(large.plus(large).is_nan());
    assert!(large.times(q(2, 1)).is_nan());
    assert!(q(1, i64::MAX).times(q(1, 2)).is_nan());
    assert!(!large.minus(large).is_nan());
    // An undefined operand is handed on and compares with nothing.
    let undefined = q(5, 0);
    let handed = undefined.plus(q(1, 2));
    assert_eq!((handed.num, handed.den), (5, 0));
    let handed = q(1, 2).times(undefined);
    assert_eq!((handed.num, handed.den), (5, 0));
    assert!(!undefined.less(q(1, 2)));
    assert!(!q(1, 2).less(undefined));
    assert!(!undefined.equal(undefined));
    // Multiplying or dividing by one changes nothing.
    let kept = q(6, 4).times(Fraction::one());
    assert_eq!((kept.num, kept.den), (6, 4));
    let kept = q(6, 4).over(Fraction::one());
    assert_eq!((kept.num, kept.den), (6, 4));
}

#[test]
fn basis_values_sum_to_exactly_one() {
    for degree in 0..=2 {
        let b = BsplineBasis::<Fraction>::new_uniform(degree, degree + 2).unwrap();
        for u in [q(0, 1), q(1, 4), q(1, 2), q(3, 4), q(1, 1)] {
            let values = b.get_values(u, b.get_span(u));
            let mut sum = Fraction::zero();
            for value in values {
                sum = sum.plus(value);
            }
            assert!(sum.equal(Fraction::one()));
        }
    }
}

#[test]
fn bezier_point_is_exact() {
    let bezier = AbstructBezier::new(four_points());
    let half = bezier.get_point(q(1, 2));
    assert!(same(half, whole(400), whole(325)));
    let tenth = bezier.get_point(q(1, 10));
    assert!(same(tenth, q(1164, 5), q(1149, 5)));
    // Both ways of evaluation give the same point.
    let by_basis = NonRationalCurve::get_point(&bezier, q(1, 2));
    assert!(same(by_basis, whole(400), whole(325)));
    let blended = de_casteljaul(3, q(1, 4), &four_points());
    let by_basis = NonRationalCurve::get_point(&bezier, q(1, 4));
    assert!(same(by_basis, blended.x, blended.y));
}

#[test]
fn bezier_derivatives_are_exact() {
    let bezier = AbstructBezier::new(four_points());
    let ders = NonRationalCurve::get_ders(&bezier, bezier.degree(), q(1, 2));
    assert_eq!(ders.len(), 4);
    assert!(same(ders[0], whole(400), whole(325)));
    assert!(same(ders[1], whole(450), whole(150)));
    assert!(same(ders[2], whole(0), whole(-600)));
    assert!(same(ders[3], whole(-1200), whole(-1200)));
}

#[test]
fn uniform_bspline_point_is_exact() {
    let bspline = BsplineCurveBase::new_uniform(four_points(), 2);
    let knots = &bspline.basis_function().knots().0;
    assert_eq!(knots.len(), 7);
    for (knot, expected) in knots.iter().zip([0, 0, 0, 1, 2, 2, 2]) {
        assert!(knot.equal(q(expected, 2)));
    }
    assert!(same(bspline.get_point(q(1, 2)), whole(400), whole(350)));
    assert!(same(bspline.get_point(q(0, 1)), whole(200), whole(200)));
    assert!(same(bspline.get_point(q(1, 1)), whole(600), whole(300)));
    let ders = bspline.get_ders(2, q(1, 10));
    assert!(same(ders[0], whole(240), whole(238)));
    assert!(same(ders[1], whole(400), whole(360)));
    assert!(same(ders[2], whole(0), whole(-400)));
}

#[test]
fn rational_derivatives_are_exact() {
    let curve = NurbsCurveBase::new(
        vec![
            (q2(1, 0), whole(1)),
            (q2(1, 1), whole(1)),
            (q2(0, 1), whole(2)),
        ],
        vec![whole(0), whole(0), whole(0), whole(1), whole(1), whole(1)],
        2,
    );
    let ders = curve.get_ders(curve.degree(), whole(0));
    assert_eq!(ders.len(), 3);
    assert!(same(ders[0], whole(1), whole(0)));
    assert!(same(ders[1], whole(0), whole(2)));
    assert!(same(ders[2], whole(-4), whole(0)));
    // The curve is a quarter of the unit circle.
    let point = curve.get_point(q(1, 2));
    assert!(same(point, q(3, 5), q(4, 5)));
}

#[test]
fn parameters_outside_of_the_domain_are_refused() {
    let b = BernsteinBasis::<Fraction>::new(3);
    assert_eq!(
        b.knots().find_span(2, q(-1, 10)).err(),
        Some(BasisFunctionError::ULessThanMin)
    );
    assert_eq!(
        b.knots().find_span(2, q(11, 10)).err(),
        Some(BasisFunctionError::UGreaterThanMax)
    );
    assert_eq!(
        b.knots().find_span(2, q(1, 0)).err(),
        Some(BasisFunctionError::UIsNon)
    );
    assert_eq!(b.knots().find_span(2, q(1, 1)).ok(), Some(2));
    assert_eq!(b.knots().find_span(2, q(0, 1)).ok(), Some(2));
}
