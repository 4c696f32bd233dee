//! Control points: plain ones and homogeneous (weighted) ones.
use vstd::prelude::*;

use crate::scalar::Real;

verus! {

/// A point of a vector space over the scalar `R`: it can be added,
/// subtracted, and scaled or divided by a scalar, and there is an origin.
///
/// As for the scalar itself, every operation is total and returns exactly
/// the value that its `_spec` twin names.
pub trait ControlPoint<R: Real>: Copy {
    /// The origin.
    spec fn zeros_spec() -> Self;

    spec fn plus_spec(self, rhs: Self) -> Self;

    spec fn minus_spec(self, rhs: Self) -> Self;

    /// The point scaled by `s`.
    spec fn times_spec(self, s: R) -> Self;

    /// The point divided by `s`.
    spec fn over_spec(self, s: R) -> Self;

    fn zeros() -> (r: Self)
        ensures
            r == Self::zeros_spec(),
    ;

    fn plus(self, rhs: Self) -> (r: Self)
        ensures
            r == self.plus_spec(rhs),
    ;

    fn minus(self, rhs: Self) -> (r: Self)
        ensures
            r == self.minus_spec(rhs),
    ;

    fn times(self, s: R) -> (r: Self)
        ensures
            r == self.times_spec(s),
    ;

    fn over(self, s: R) -> (r: Self)
        ensures
            r == self.over_spec(s),
    ;

    /// Scaling or dividing a point by one changes nothing.
    proof fn unit_scaling(p: Self)
        ensures
            p.times_spec(R::one_spec()) == p,
            p.over_spec(R::one_spec()) == p,
    ;
}

/// A homogeneous control point: a point already multiplied by its weight,
/// together with that weight.
#[derive(Copy, Debug)]
pub struct HomoControlPoint<R: Real, CP: ControlPoint<R>> {
    /// The point times the weight.
    pub control_point: CP,
    pub weight: R,
}

impl<R: Real, CP: ControlPoint<R>> Clone for HomoControlPoint<R, CP> {
    fn clone(&self) -> (copy: Self)
        ensures
            copy == *self,
    {
        *self
    }
}

impl<R: Real, CP: ControlPoint<R>> Default for HomoControlPoint<R, CP> {
    /// The origin with the weight zero.
    fn default() -> (origin: Self)
        ensures
            origin == (HomoControlPoint { control_point: CP::zeros_spec(), weight: R::zero_spec() }),
    {
        Self { control_point: CP::zeros(), weight: R::zero() }
    }
}

impl<R: Real, CP: ControlPoint<R>> HomoControlPoint<R, CP> {
    /// The homogeneous point that `control_point` with `weight` gives.
    pub open spec fn from_control_point_spec(control_point: CP, weight: R) -> Self {
        HomoControlPoint { control_point: control_point.times_spec(weight), weight }
    }

    /// The point in Euclidean space, and the weight.
    pub open spec fn to_control_point_and_weight_spec(self) -> (CP, R) {
        (self.control_point.over_spec(self.weight), self.weight)
    }

    /// The weighted point and the weight, as they are stored.
    pub fn split(&self) -> (parts: (CP, R))
        ensures
            parts == (self.control_point, self.weight),
    {
        (self.control_point, self.weight)
    }

    /// The point in Euclidean space, which is the weighted point divided by
    /// the weight, and the weight.
    pub fn to_control_point_and_weight(&self) -> (parts: (CP, R))
        ensures
            parts == self.to_control_point_and_weight_spec(),
    {
        let (fat_cp, w) = self.split();
        (fat_cp.over(w), w)
    }

    /// The homogeneous point of `control_point` with `weight`: the point is
    /// scaled by the weight.
    pub fn from_control_point(control_point: CP, weight: R) -> (homo: Self)
        ensures
            homo == Self::from_control_point_spec(control_point, weight),
    {
        Self { control_point: control_point.times(weight), weight }
    }
}

/// A point given the weight one comes back unchanged from its homogeneous
/// form.
pub proof fn lemma_unit_weight_round_trip<R: Real, CP: ControlPoint<R>>(point: CP)
    ensures
        HomoControlPoint::<R, CP>::from_control_point_spec(
            point,
            R::one_spec(),
        ).to_control_point_and_weight_spec() == (point, R::one_spec()),
{
    CP::unit_scaling(point);
}

impl<R: Real, CP: ControlPoint<R>> ControlPoint<R> for HomoControlPoint<R, CP> {
    open spec fn zeros_spec() -> Self {
        HomoControlPoint { control_point: CP::zeros_spec(), weight: R::zero_spec() }
    }

    open spec fn plus_spec(self, rhs: Self) -> Self {
        HomoControlPoint {
            control_point: self.control_point.plus_spec(rhs.control_point),
            weight: self.weight.plus_spec(rhs.weight),
        }
    }

    open spec fn minus_spec(self, rhs: Self) -> Self {
        HomoControlPoint {
            control_point: self.control_point.minus_spec(rhs.control_point),
            weight: self.weight.minus_spec(rhs.weight),
        }
    }

    open spec fn times_spec(self, s: R) -> Self {
        HomoControlPoint {
            control_point: self.control_point.times_spec(s),
            weight: self.weight.times_spec(s),
        }
    }

    open spec fn over_spec(self, s: R) -> Self {
        HomoControlPoint {
            control_point: self.control_point.over_spec(s),
            weight: self.weight.over_spec(s),
        }
    }

    fn zeros() -> Self {
        Self { control_point: CP::zeros(), weight: R::zero() }
    }

    fn plus(self, rhs: Self) -> Self {
        Self {
            control_point: self.control_point.plus(rhs.control_point),
            weight: self.weight.plus(rhs.weight),
        }
    }

    fn minus(self, rhs: Self) -> Self {
        Self {
            control_point: self.control_point.minus(rhs.control_point),
            weight: self.weight.minus(rhs.weight),
        }
    }

    fn times(self, s: R) -> Self {
        Self { control_point: self.control_point.times(s), weight: self.weight.times(s) }
    }

    fn over(self, s: R) -> Self {
        Self { control_point: self.control_point.over(s), weight: self.weight.over(s) }
    }

    proof fn unit_scaling(p: Self) {
        CP::unit_scaling(p.control_point);
        R::unit_laws(p.weight);
    }
}

} // verus!
