use niubi::basis_function::{Basis, BernsteinBasis, BsplineBasis, Knots};
use niubi::Real;

/// A double-precision scalar.
#[derive(Clone, Copy, Debug, PartialEq)]
struct F(f64);

impl Real for F {
    fn zero_spec() -> Self {
        F(0.0)
    }

    fn one_spec() -> Self {
        F(1.0)
    }

    fn from_usize_spec(n: usize) -> Self {
        F(n as f64)
    }

    fn plus_spec(self, rhs: Self) -> Self {
        F(self.0 + rhs.0)
    }

    fn minus_spec(self, rhs: Self) -> Self {
        F(self.0 - rhs.0)
    }

    fn times_spec(self, rhs: Self) -> Self {
        F(self.0 * rhs.0)
    }

    fn over_spec(self, rhs: Self) -> Self {
        F(self.0 / rhs.0)
    }

    fn negated_spec(self) -> Self {
        F(-self.0)
    }

    fn less_spec(self, rhs: Self) -> bool {
        self.0 < rhs.0
    }

    fn equal_spec(self, rhs: Self) -> bool {
        self.0 == rhs.0
    }

    fn is_nan_spec(self) -> bool {
        self.0.is_nan()
    }

    fn is_infinite_spec(self) -> bool {
        self.0.is_infinite()
    }

    fn zero() -> Self {
        F(0.0)
    }

    fn one() -> Self {
        F(1.0)
    }

    fn from_usize(n: usize) -> Self {
        F(n as f64)
    }

    fn plus(self, rhs: Self) -> Self {
        F(self.0 + rhs.0)
    }

    fn minus(self, rhs: Self) -> Self {
        F(self.0 - rhs.0)
    }

    fn times(self, rhs: Self) -> Self {
        F(self.0 * rhs.0)
    }

    fn over(self, rhs: Self) -> Self {
        F(self.0 / rhs.0)
    }

    fn negated(self) -> Self {
        F(-self.0)
    }

    fn less(self, rhs: Self) -> bool {
        self.0 < rhs.0
    }

    fn equal(self, rhs: Self) -> bool {
        self.0 == rhs.0
    }

    fn is_nan(self) -> bool {
        self.0.is_nan()
    }

    fn is_infinite(self) -> bool {
        self.0.is_infinite()
    }

    fn order_laws(_a: Self, _b: Self, _c: Self) {}

    fn unit_laws(_a: Self) {}

    fn ratio_laws(_i: usize, _j: usize, _n: usize) {}
}

fn reals(values: &[f64]) -> Vec<F> {
    values.iter().map(|x| F(*x)).collect()
}

fn rows(values: Vec<Vec<f64>>) -> Vec<Vec<F>> {
    values.iter().map(|row| reals(row)).collect()
}

#[test]
fn test_bernstein_basis_new() {
    let b = BernsteinBasis::<F>::new(0);
    assert_eq!(b.knots().0, reals(&[vec![0.0; 1], vec![1.0; 1]].concat()));
    for n in 1..=10 {
        let b = BernsteinBasis::<F>::new(n);
        assert_eq!(b.knots().0, reals(&[vec![0.0; n], vec![1.0; n]].concat()));
    }
}

#[test]
fn test_bernstein_basis_degree() {
    for n in 1..=10 {
        let b = BernsteinBasis::<F>::new(n);
        assert_eq!(n - 1, b.degree());
    }
}

#[test]
fn test_new_average_err() {
    let b = BsplineBasis::<F>::new_uniform(3, 2);
    assert!(b.is_err());
    let b = BsplineBasis::<F>::new_uniform(2, 2);
    assert!(b.is_err());
    let b = BsplineBasis::<F>::new_uniform(1, 2);
    assert!(b.is_ok());
}

#[test]
fn test_new_average_ok() {
    let b = BsplineBasis::<F>::new_uniform(2, 3).unwrap();
    assert_eq!(b.knots().0, reals(&[0.0, 0.0, 0.0, 1.0, 1.0, 1.0]));
    let b = BsplineBasis::<F>::new_uniform(2, 4).unwrap();
    assert_eq!(b.knots().0, reals(&[0.0, 0.0, 0.0, 0.5, 1.0, 1.0, 1.0]));
    let b = BsplineBasis::<F>::new_uniform(2, 5).unwrap();
    assert_eq!(
        b.knots().0,
        reals(&[0.0, 0.0, 0.0, 1.0 / 3.0, 2.0 / 3.0, 1.0, 1.0, 1.0])
    );
}

#[test]
fn test_knots_m() {
    let v = reals(&[0.0, 0.0, 0.0, 1.0, 1.0, 1.0]);
    let knots = Knots::new(v);
    assert_eq!(knots.m(), 5);
}

#[test]
fn test_knots_index() {
    let v = reals(&[0.0, 0.0, 0.0, 1.0, 2.0, 3.0, 4.0, 4.0, 5.0, 5.0, 5.0]);
    let knots = Knots::new(v);
    for i in 0..knots.0.len() {
        assert_eq!(knots.index(i), knots.0[i]);
    }
}

#[test]
fn test_knots_find_span_ok() {
    let v = reals(&[0.0, 0.0, 0.0, 1.0, 2.0, 3.0, 4.0, 4.0, 5.0, 5.0, 5.0]);
    let knots = Knots::new(v);
    let q_and_a = [
        (0.0, 2usize),
        (0.5, 2usize),
        (1.5, 3usize),
        (4.0, 7usize),
        (5.0, 7),
    ];
    for (q, a) in q_and_a {
        let span = knots.find_span(2, F(q));
        assert_eq!(span.unwrap(), a);
    }
}

#[test]
fn test_knots_find_span_err() {
    let v = reals(&[0.0, 0.0, 0.0, 1.0, 1.0, 1.0]);
    let knots = Knots::new(v);
    let qs = vec![
        f64::INFINITY,
        f64::NEG_INFINITY,
        f64::NAN,
        -0.1,
        0.0 - f64::EPSILON,
        1.0 + f64::EPSILON,
        2.0,
    ];
    for q in qs {
        let result = knots.find_span(2, F(q));
        println!("{q}");
        assert!(result.is_err());
    }
}

#[test]
fn test_bernstein_basis_get_value() {
    let b = BernsteinBasis::<F>::new(2);
    assert_eq!(b.get_values(F(0.5), b.get_span(F(0.5))), reals(&[0.5, 0.5]));
}

#[test]
fn test_bernstein_basis_get_ders() {
    let u = F(0.5);
    let b = BernsteinBasis::<F>::new(2);
    let span = b.get_span(u);
    let ders = b.get_ders(u, span);
    assert_eq!(ders, rows(vec![vec![0.5, 0.5], vec![-1.0, 1.0]]));

    let b = BernsteinBasis::<F>::new(3);
    let span = b.get_span(u);
    let ders = b.get_ders(u, span);
    assert_eq!(
        ders,
        rows(vec![
            vec![0.25, 0.5, 0.25],
            vec![-1.0, 0.0, 1.0],
            vec![2.0, -4.0, 2.0]
        ])
    );

    let b = BernsteinBasis::<F>::new(3);
    let span = b.get_span(u);
    let ders = b.get_ders(u, span);
    assert_eq!(
        ders,
        rows(vec![
            vec![0.25, 0.5, 0.25],
            vec![-1.0, 0.0, 1.0],
            vec![2.0, -4.0, 2.0]
        ])
    );

    let b = BernsteinBasis::<F>::new(4);
    let span = b.get_span(u);
    let ders = b.get_ders(u, span);
    assert_eq!(
        ders,
        rows(vec![
            vec![0.125, 0.375, 0.375, 0.125],
            vec![-0.75, -0.75, 0.75, 0.75],
            vec![3.0, -3.0, -3.0, 3.0],
            vec![-6.0, 18.0, -18.0, 6.0],
        ])
    );
}

#[test]
fn test_bspline_basis_get_value() {
    let u = F(0.5);
    let b = BsplineBasis::<F>::new_uniform(2, 4).unwrap();
    let span = b.get_span(u);
    let ders = b.get_values(u, span);
    assert_eq!(ders, reals(&[0.5, 0.5, 0.0]));

    let b = BsplineBasis::<F>::new_uniform(3, 4).unwrap();
    let span = b.get_span(u);
    let ders = b.get_values(u, span);
    assert_eq!(ders, reals(&[0.125, 0.375, 0.375, 0.125]));
}

#[test]
fn test_bspline_basis_get_ders() {
    let u = F(0.5);
    let b = BsplineBasis::<F>::new_uniform(2, 4).unwrap();
    let span = b.get_span(u);
    let ders = b.get_ders(u, span);
    assert_eq!(
        ders,
        rows(vec![
            vec![0.5, 0.5, 0.0],
            vec![-2.0, 2.0, 0.0],
            vec![4.0, -12.0, 8.0],
        ])
    );

    let b = BsplineBasis::<F>::new_uniform(3, 5).unwrap();
    let span = b.get_span(u);
    let ders = b.get_ders(u, span);
    assert_eq!(
        ders,
        rows(vec![
            vec![0.25, 0.5, 0.25, 0.0],
            vec![-1.5, 0.0, 1.5, 0.0],
            vec![6.0, -12.0, 6.0, 0.0],
            vec![-12.0, 48.0, -84.0, 48.0],
        ])
    );
}
