use nalgebra::{SVector, Vector3, Vector4};
use niubi::basics::ControlPoint;
use niubi::basis_function::Basis;
use niubi::surface::{
    BezierSurface, BsplineSurfaceBase, NonRationalSurface, NurbsSurfaceBase, ParametricSurface,
    RationalSurface,
};
use niubi::Real;

/// A double-precision scalar.
#[derive(Clone, Copy, Debug, PartialEq)]
struct F(f64);

impl Real for F {
    fn zero_spec() -> Self {
        F(0.0)
    }

    fn one_spec() -> Self {
        F(1.0)
    }

    fn from_usize_spec(n: usize) -> Self {
        F(n as f64)
    }

    fn plus_spec(self, rhs: Self) -> Self {
        F(self.0 + rhs.0)
    }

    fn minus_spec(self, rhs: Self) -> Self {
        F(self.0 - rhs.0)
    }

    fn times_spec(self, rhs: Self) -> Self {
        F(self.0 * rhs.0)
    }

    fn over_spec(self, rhs: Self) -> Self {
        F(self.0 / rhs.0)
    }

    fn negated_spec(self) -> Self {
        F(-self.0)
    }

    fn less_spec(self, rhs: Self) -> bool {
        self.0 < rhs.0
    }

    fn equal_spec(self, rhs: Self) -> bool {
        self.0 == rhs.0
    }

    fn is_nan_spec(self) -> bool {
        self.0.is_nan()
    }

    fn is_infinite_spec(self) -> bool {
        self.0.is_infinite()
    }

    fn zero() -> Self {
        F(0.0)
    }

    fn one() -> Self {
        F(1.0)
    }

    fn from_usize(n: usize) -> Self {
        F(n as f64)
    }

    fn plus(self, rhs: Self) -> Self {
        F(self.0 + rhs.0)
    }

    fn minus(self, rhs: Self) -> Self {
        F(self.0 - rhs.0)
    }

    fn times(self, rhs: Self) -> Self {
        F(self.0 * rhs.0)
    }

    fn over(self, rhs: Self) -> Self {
        F(self.0 / rhs.0)
    }

    fn negated(self) -> Self {
        F(-self.0)
    }

    fn less(self, rhs: Self) -> bool {
        self.0 < rhs.0
    }

    fn equal(self, rhs: Self) -> bool {
        self.0 == rhs.0
    }

    fn is_nan(self) -> bool {
        self.0.is_nan()
    }

    fn is_infinite(self) -> bool {
        self.0.is_infinite()
    }

    fn order_laws(_a: Self, _b: Self, _c: Self) {}

    fn unit_laws(_a: Self) {}

    fn ratio_laws(_i: usize, _j: usize, _n: usize) {}
}

/// A point of `D` double-precision coordinates.
#[derive(Clone, Copy, Debug, PartialEq)]
struct V<const D: usize>(SVector<f64, D>);

impl<const D: usize> ControlPoint<F> for V<D> {
    fn zeros_spec() -> Self {
        V(SVector::zeros())
    }

    fn plus_spec(self, rhs: Self) -> Self {
        V(self.0 + rhs.0)
    }

    fn minus_spec(self, rhs: Self) -> Self {
        V(self.0 - rhs.0)
    }

    fn times_spec(self, s: F) -> Self {
        V(self.0 * s.0)
    }

    fn over_spec(self, s: F) -> Self {
        V(self.0 / s.0)
    }

    fn zeros() -> Self {
        V(SVector::zeros())
    }

    fn plus(self, rhs: Self) -> Self {
        V(self.0 + rhs.0)
    }

    fn minus(self, rhs: Self) -> Self {
        V(self.0 - rhs.0)
    }

    fn times(self, s: F) -> Self {
        V(self.0 * s.0)
    }

    fn over(self, s: F) -> Self {
        V(self.0 / s.0)
    }

    fn unit_scaling(_p: Self) {}
}

fn v3(x: f64, y: f64, z: f64) -> V<3> {
    V(Vector3::new(x, y, z))
}

fn v4(x: f64, y: f64, z: f64, w: f64) -> V<4> {
    V(Vector4::new(x, y, z, w))
}

fn reals(values: &[f64]) -> Vec<F> {
    values.iter().map(|x| F(*x)).collect()
}

#[test]
fn test_binomial() {
    for k in 0..=4 {
        let a = num::integer::binomial(4, k);
        println!("{a}");
    }
}

#[test]
fn test_bezier_surface_new() {
    let surface = BezierSurface::new(vec![
        vec![v4(1., 1., 0., 1.), v4(-1., 1., 0., 1.)],
        vec![v4(1., 1., 1., 1.), v4(-1., 1., 1., 1.)],
        vec![v4(2., 2., 0., 2.), v4(-2., 2., 0., 2.)],
    ]);
    assert_eq!(
        surface.u_basis_function().knots().0,
        reals(&[0., 0., 0., 1., 1., 1.,])
    );
    assert_eq!(
        surface.v_basis_function().knots().0,
        reals(&[0., 0., 1., 1.])
    );
    assert_eq!(surface.u_basis_function().degree(), 2);
    assert_eq!(surface.v_basis_function().degree(), 1);
}

#[test]
fn test_bezier_surface_get_point() {
    let surface = BezierSurface::new(vec![
        vec![v4(1., 1., 0., 1.), v4(-1., 1., 0., 1.)],
        vec![v4(1., 1., 1., 1.), v4(-1., 1., 1., 1.)],
        vec![v4(2., 0., 2., 2.), v4(-2., 0., 2., 2.)],
    ]);
    assert_eq!(surface.get_point(F(0.5), F(0.5)), v4(0., 0.75, 1., 1.25));
}

#[test]
fn test_bspline_surface_new() {
    BsplineSurfaceBase::new_uniform(
        vec![
            vec![v4(1., 1., 0., 1.), v4(-1., 1., 0., 1.)],
            vec![v4(1., 1., 1., 1.), v4(-1., 1., 1., 1.)],
            vec![v4(2., 2., 0., 2.), v4(-2., 2., 0., 2.)],
        ],
        2,
        1,
    );
}

#[test]
fn test_bspline_surface_get_point() {}

#[test]
fn test_bspline_surface_get_ders() {}

#[test]
fn test_nurbs_surface_new() {
    NurbsSurfaceBase::new_uniform(
        vec![
            vec![(v3(1., 1., 0.), F(1.)), (v3(1., 1., 0.), F(1.))],
            vec![(v3(1., 1., 0.), F(1.)), (v3(1., 1., 0.), F(1.))],
            vec![(v3(1., 1., 0.), F(1.)), (v3(1., 1., 0.), F(1.))],
        ],
        2,
        1,
    );
}

#[test]
fn test_nurbs_surface_get_point() {}

#[test]
fn test_nurbs_surface_get_ders() {}

/// The Bézier patch of the tests above, which is of degree 2 along `u` and
/// 1 along `v`.
fn patch() -> Vec<Vec<V<4>>> {
    vec![
        vec![v4(1., 1., 0., 1.), v4(-1., 1., 0., 1.)],
        vec![v4(1., 1., 1., 1.), v4(-1., 1., 1., 1.)],
        vec![v4(2., 0., 2., 2.), v4(-2., 0., 2., 2.)],
    ]
}

fn transposed(grid: &Vec<Vec<V<4>>>) -> Vec<Vec<V<4>>> {
    (0..grid[0].len())
        .map(|j| grid.iter().map(|row| row[j]).collect())
        .collect()
}

#[test]
fn bezier_surface_blends_along_the_smaller_degree_first() {
    // Degree 1 along u and 2 along v: the columns are blended first.
    let surface = BezierSurface::new(transposed(&patch()));
    assert_eq!(surface.p(), 1);
    assert_eq!(surface.q(), 2);
    assert_eq!(surface.get_point(F(0.5), F(0.5)), v4(0., 0.75, 1., 1.25));
    assert_eq!(surface.get_point(F(0.0), F(0.0)), v4(1., 1., 0., 1.));
    assert_eq!(surface.get_point(F(1.0), F(0.0)), v4(-1., 1., 0., 1.));
    assert_eq!(surface.get_point(F(0.0), F(1.0)), v4(2., 0., 2., 2.));
}

#[test]
fn surface_point_by_basis_functions_matches_de_casteljau() {
    let surface = BezierSurface::new(patch());
    let by_basis = NonRationalSurface::get_point(&surface, F(0.5), F(0.5));
    assert_eq!(by_basis, v4(0., 0.75, 1., 1.25));
    let uniform = BsplineSurfaceBase::new_uniform(patch(), 2, 1);
    assert_eq!(uniform.get_point(F(0.5), F(0.5)), v4(0., 0.75, 1., 1.25));
}

#[test]
fn surface_ders_hold_the_point_and_zero_beyond_the_order() {
    let surface = BsplineSurfaceBase::new_uniform(patch(), 2, 1);
    let ders = surface.get_ders(1, F(0.5), F(0.5));
    assert_eq!(ders.len(), 3);
    for row in ders.iter() {
        assert_eq!(row.len(), 2);
    }
    assert_eq!(ders[0][0], v4(0., 0.75, 1., 1.25));
    // d/dv of the bilinear blend along v: second column minus first.
    assert_eq!(ders[0][1], v4(-2.5, 0., 0., 0.));
    // d/du at u = 0.5 of the quadratic: last row minus first row, averaged over v.
    assert_eq!(ders[1][0], v4(0., -1., 2., 1.));
    // k + l = 2 exceeds the requested order 1.
    assert_eq!(ders[1][1], v4(0., 0., 0., 0.));
    assert_eq!(ders[2][0], v4(0., 0., 0., 0.));
    assert_eq!(ders[2][1], v4(0., 0., 0., 0.));
}

fn close<const D: usize>(a: V<D>, b: V<D>) -> bool {
    (a.0 - b.0).amax() < 1.0e-9
}

#[test]
fn rational_surface_with_unit_weights_is_the_plain_surface() {
    let weighted: Vec<Vec<(V<4>, F)>> = patch()
        .iter()
        .map(|row| row.iter().map(|p| (*p, F(1.0))).collect())
        .collect();
    let rational = NurbsSurfaceBase::new_uniform(weighted, 2, 1);
    let plain = BsplineSurfaceBase::new_uniform(patch(), 2, 1);
    assert_eq!(
        rational.get_point(F(0.25), F(0.75)),
        plain.get_point(F(0.25), F(0.75))
    );
    for order in 0..=4 {
        let rational_ders = rational.get_ders(order, F(0.5), F(0.5));
        let plain_ders = plain.get_ders(order, F(0.5), F(0.5));
        assert_eq!(rational_ders.len(), 3);
        for k in 0..3 {
            assert_eq!(rational_ders[k].len(), 2);
            for l in 0..2 {
                assert!(close(rational_ders[k][l], plain_ders[k][l]));
                if k + l > order {
                    assert_eq!(rational_ders[k][l], v4(0., 0., 0., 0.));
                }
            }
        }
    }
    // The order 0 asks for the point alone.
    let point_alone = rational.get_ders(0, F(0.5), F(0.5));
    assert_eq!(point_alone[0][0], rational.get_point(F(0.5), F(0.5)));
    assert_eq!(point_alone[0][1], v4(0., 0., 0., 0.));
    assert_eq!(point_alone[1][0], v4(0., 0., 0., 0.));
}

#[test]
fn rational_surface_divides_the_weight_out() {
    // All points carry the weight 2: the surface is the plain one.
    let weighted: Vec<Vec<(V<4>, F)>> = patch()
        .iter()
        .map(|row| row.iter().map(|p| (*p, F(2.0))).collect())
        .collect();
    let rational = NurbsSurfaceBase::new_uniform(weighted, 2, 1);
    assert_eq!(rational.get_point(F(0.5), F(0.5)), v4(0., 0.75, 1., 1.25));
    let ders = rational.get_ders(1, F(0.5), F(0.5));
    assert_eq!(ders.len(), 3);
    assert_eq!(ders[0][0], v4(0., 0.75, 1., 1.25));
    assert_eq!(ders[0][1], v4(-2.5, 0., 0., 0.));
    assert_eq!(ders[1][0], v4(0., -1., 2., 1.));
    // The cell (1, 1) is beyond the order 1 and within the order 2.
    assert_eq!(ders[1][1], v4(0., 0., 0., 0.));
    let ders = rational.get_ders(2, F(0.5), F(0.5));
    assert!(close(ders[1][1], v4(-2., 0., 0., 0.)));
    assert!(close(ders[2][0], v4(0., -2., 0., 2.)));
}

#[test]
fn rational_surface_ders_take_the_cross_terms_away() {
    // The surface (u, v, u v) with the weight (1 + u)(1 + v), as a patch of
    // degree 2 by 2: the coefficients of 1 + t and of t (1 + t) over the
    // quadratic Bernstein basis.
    let one_plus = [1.0, 1.5, 2.0];
    let times_one_plus = [0.0, 0.5, 2.0];
    let mut weighted: Vec<Vec<(V<3>, F)>> = Vec::new();
    for i in 0..3 {
        let mut row = Vec::new();
        for j in 0..3 {
            let w = one_plus[i] * one_plus[j];
            let x = times_one_plus[i] * one_plus[j] / w;
            let y = one_plus[i] * times_one_plus[j] / w;
            let z = times_one_plus[i] * times_one_plus[j] / w;
            row.push((v3(x, y, z), F(w)));
        }
        weighted.push(row);
    }
    let surface = NurbsSurfaceBase::new_uniform(weighted, 2, 2);
    let (u, v) = (0.3, 0.6);
    let point = surface.get_point(F(u), F(v)).0;
    assert!((point - Vector3::new(u, v, u * v)).amax() < 1.0e-12);
    // Every mixed derivative of (u, v, u v).
    let expected = [
        [
            Vector3::new(u, v, u * v),
            Vector3::new(0.0, 1.0, u),
            Vector3::new(0.0, 0.0, 0.0),
        ],
        [
            Vector3::new(1.0, 0.0, v),
            Vector3::new(0.0, 0.0, 1.0),
            Vector3::new(0.0, 0.0, 0.0),
        ],
        [
            Vector3::new(0.0, 0.0, 0.0),
            Vector3::new(0.0, 0.0, 0.0),
            Vector3::new(0.0, 0.0, 0.0),
        ],
    ];
    for order in 0..=5 {
        let ders = surface.get_ders(order, F(u), F(v));
        assert_eq!(ders.len(), 3);
        for k in 0..3 {
            assert_eq!(ders[k].len(), 3);
            for l in 0..3 {
                if k + l <= order {
                    assert!((ders[k][l].0 - expected[k][l]).amax() < 1.0e-9);
                } else {
                    assert_eq!(ders[k][l], v3(0.0, 0.0, 0.0));
                }
            }
        }
    }
}
