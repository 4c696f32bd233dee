use nalgebra::{SVector, Vector2};
use niubi::basics::ControlPoint;
use niubi::curve::{
    AbstructBezier, BsplineCurveBase, NonRationalCurve, NurbsCurveBase, ParametricCurve,
    RationalCurve,
};
use niubi::Real;

/// A double-precision scalar.
#[derive(Clone, Copy, Debug, PartialEq)]
struct F(f64);

impl Real for F {
    fn zero_spec() -> Self {
        F(0.0)
    }

    fn one_spec() -> Self {
        F(1.0)
    }

    fn from_usize_spec(n: usize) -> Self {
        F(n as f64)
    }

    fn plus_spec(self, rhs: Self) -> Self {
        F(self.0 + rhs.0)
    }

    fn minus_spec(self, rhs: Self) -> Self {
        F(self.0 - rhs.0)
    }

    fn times_spec(self, rhs: Self) -> Self {
        F(self.0 * rhs.0)
    }

    fn over_spec(self, rhs: Self) -> Self {
        F(self.0 / rhs.0)
    }

    fn negated_spec(self) -> Self {
        F(-self.0)
    }

    fn less_spec(self, rhs: Self) -> bool {
        self.0 < rhs.0
    }

    fn equal_spec(self, rhs: Self) -> bool {
        self.0 == rhs.0
    }

    fn is_nan_spec(self) -> bool {
        self.0.is_nan()
    }

    fn is_infinite_spec(self) -> bool {
        self.0.is_infinite()
    }

    fn zero() -> Self {
        F(0.0)
    }

    fn one() -> Self {
        F(1.0)
    }

    fn from_usize(n: usize) -> Self {
        F(n as f64)
    }

    fn plus(self, rhs: Self) -> Self {
        F(self.0 + rhs.0)
    }

    fn minus(self, rhs: Self) -> Self {
        F(self.0 - rhs.0)
    }

    fn times(self, rhs: Self) -> Self {
        F(self.0 * rhs.0)
    }

    fn over(self, rhs: Self) -> Self {
        F(self.0 / rhs.0)
    }

    fn negated(self) -> Self {
        F(-self.0)
    }

    fn less(self, rhs: Self) -> bool {
        self.0 < rhs.0
    }

    fn equal(self, rhs: Self) -> bool {
        self.0 == rhs.0
    }

    fn is_nan(self) -> bool {
        self.0.is_nan()
    }

    fn is_infinite(self) -> bool {
        self.0.is_infinite()
    }

    fn order_laws(_a: Self, _b: Self, _c: Self) {}

    fn unit_laws(_a: Self) {}

    fn ratio_laws(_i: usize, _j: usize, _n: usize) {}
}

/// A point of `D` double-precision coordinates.
#[derive(Clone, Copy, Debug, PartialEq)]
struct V<const D: usize>(SVector<f64, D>);

impl<const D: usize> ControlPoint<F> for V<D> {
    fn zeros_spec() -> Self {
        V(SVector::zeros())
    }

    fn plus_spec(self, rhs: Self) -> Self {
        V(self.0 + rhs.0)
    }

    fn minus_spec(self, rhs: Self) -> Self {
        V(self.0 - rhs.0)
    }

    fn times_spec(self, s: F) -> Self {
        V(self.0 * s.0)
    }

    fn over_spec(self, s: F) -> Self {
        V(self.0 / s.0)
    }

    fn zeros() -> Self {
        V(SVector::zeros())
    }

    fn plus(self, rhs: Self) -> Self {
        V(self.0 + rhs.0)
    }

    fn minus(self, rhs: Self) -> Self {
        V(self.0 - rhs.0)
    }

    fn times(self, s: F) -> Self {
        V(self.0 * s.0)
    }

    fn over(self, s: F) -> Self {
        V(self.0 / s.0)
    }

    fn unit_scaling(_p: Self) {}
}

type Bezier<const D: usize> = AbstructBezier<F, V<D>>;
type Bspline<const D: usize> = BsplineCurveBase<F, V<D>>;
type NurbsCurve<const D: usize> = NurbsCurveBase<F, V<D>>;

fn v2(x: f64, y: f64) -> V<2> {
    V(Vector2::new(x, y))
}

fn reals(values: &[f64]) -> Vec<F> {
    values.iter().map(|x| F(*x)).collect()
}

fn four_points() -> Vec<V<2>> {
    vec![
        v2(200.0, 200.0),
        v2(300.0, 300.0),
        v2(500.0, 400.0),
        v2(600.0, 300.0),
    ]
}

fn approx_eq(a: f64, b: f64) -> bool {
    (a - b).abs() < 1.0e-6
}

#[test]
fn test_bezier_curve_basis_function() {
    let bezier = Bezier::new(four_points());
    assert_eq!(bezier.get_point(F(0.1)), v2(232.8, 229.8));
    assert_eq!(bezier.get_point(F(0.3)), v2(311.59999999999997, 284.6));
    assert_eq!(bezier.get_point(F(0.5)), v2(400.0, 325.0));
    assert_eq!(bezier.get_point(F(0.7)), v2(488.4, 341.4));
    assert_eq!(bezier.get_point(F(0.9)), v2(567.2, 324.2));
}

#[test]
fn test_bezier_curve_basis_get_point() {
    let bezier = Bezier::new(four_points());

    let ans = vec![
        Vector2::new(232.80000000000004, 229.80000000000007),
        Vector2::new(311.59999999999997, 284.6),
        Vector2::new(400.0, 325.0),
        Vector2::new(488.4, 341.4),
        Vector2::new(567.2, 324.2),
    ];

    for (index, &u) in [0.1, 0.3, 0.5, 0.7, 0.9].iter().enumerate() {
        let point = bezier.get_point(F(u)).0;
        assert!(approx_eq(point.x, ans[index].x));
        assert!(approx_eq(point.y, ans[index].y));
    }
}

#[test]
fn test_bezier_curve_basis_get_ders() {
    let bezier = Bezier::new(four_points());
    let ans = vec![
        Vector2::new(232.8, 229.8),
        Vector2::new(354.0, 294.0),
        Vector2::new(480.0, -120.0),
        Vector2::new(-1200.0, -1200.0),
    ];
    let ders = bezier.get_ders(bezier.degree(), F(0.1));
    assert_eq!(ders.len(), 4);
    for (r, a) in ders.iter().zip(ans.iter()) {
        assert!(approx_eq(r.0.x, a.x));
        assert!(approx_eq(r.0.y, a.y));
    }
}

#[test]
fn test_bsplie_curve_get_point() {
    let bspline = Bspline::new(
        four_points(),
        reals(&[0.0, 0.0, 0.0, 0.5, 1.0, 1.0, 1.0]),
        2,
    );
    assert_eq!(
        bspline.get_point(F(0.1)),
        v2(240.00000000000006, 238.00000000000006)
    );
    assert_eq!(bspline.get_point(F(0.3)), v2(320.0, 302.0));
    assert_eq!(bspline.get_point(F(0.5)), v2(400.0, 350.0));
    assert_eq!(bspline.get_point(F(0.7)), v2(479.99999999999994, 366.0));
    assert_eq!(bspline.get_point(F(0.9)), v2(560.0, 334.0));
}

#[test]
fn test_bsplie_curve_basis_get_ders() {
    let bspline = Bspline::new_uniform(four_points(), 2);
    let ders = bspline.get_ders(2, F(0.1));
    assert_eq!(ders[0], v2(240.00000000000006, 238.00000000000006));
    assert_eq!(ders[1], v2(400.0000000000001, 360.0000000000001));
    assert_eq!(ders[2], v2(0.0, -400.0));
}

fn weighted_four_points() -> Vec<(V<2>, F)> {
    vec![
        (v2(200.0, 200.0), F(0.1)),
        (v2(300.0, 300.0), F(1.0)),
        (v2(500.0, 400.0), F(1.0)),
        (v2(600.0, 300.0), F(1.0)),
    ]
}

fn quarter_circle() -> NurbsCurve<2> {
    NurbsCurve::<2>::new(
        vec![
            (v2(1.0, 0.0), F(1.0)),
            (v2(1.0, 1.0), F(1.0)),
            (v2(0.0, 1.0), F(2.0)),
        ],
        reals(&[0.0, 0.0, 0.0, 1.0, 1.0, 1.0]),
        2,
    )
}

#[test]
fn nurbs_curve_test_nurbs_get_value() {
    let curve = NurbsCurve::<2>::new(
        weighted_four_points(),
        reals(&[0.0, 0.0, 0.0, 0.5, 1.0, 1.0, 1.0]),
        2,
    );
    assert_eq!(
        curve.get_point(F(0.1)),
        v2(294.33962264150944, 289.62264150943395)
    );
}

#[test]
fn nurbs_curve_test_nurbs_get_ders() {
    let curve = quarter_circle();
    println!("{:?}", curve.get_ders(curve.degree(), F(0.0)));
    assert_eq!(
        curve.get_ders(curve.degree(), F(0.0)),
        vec![v2(1.0, 0.0), v2(0.0, 2.0), v2(-4.0, 0.0)]
    );
}

#[test]
fn nurbs_test_nurbs_get_value() {
    let curve = NurbsCurve::<2>::new(
        weighted_four_points(),
        reals(&[0.0, 0.0, 0.0, 0.5, 1.0, 1.0, 1.0]),
        2,
    );
    assert_eq!(
        curve.get_point(F(0.1)),
        v2(294.33962264150944, 289.62264150943395)
    );
}

#[test]
fn nurbs_test_nurbs_get_ders() {
    let curve = quarter_circle();
    assert_eq!(
        curve.get_ders(curve.degree(), F(0.0)),
        vec![v2(1.0, 0.0), v2(0.0, 2.0), v2(-4.0, 0.0)]
    );
}
