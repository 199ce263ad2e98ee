//! Quadratic Bezier curves.

use vstd::prelude::*;
use crate::point::Point;
use crate::scalar::{num, one, Scalar};

verus! {

/// A Bezier curve of degree two: a start, one control point and an end.
#[derive(Clone, Copy)]
pub struct QuadraticBezier<P: Point> {
    pub start: P,
    pub ctrl: P,
    pub end: P,
}

impl<P: Point> QuadraticBezier<P> {
    /// The curve with the given points.
    pub fn new(start: P, ctrl: P, end: P) -> (r: Self)
        ensures
            r.start == start,
            r.ctrl == ctrl,
            r.end == end,
    {
        QuadraticBezier { start, ctrl, end }
    }

    /// The value at `t` in the Bernstein basis:
    /// `start*(1-t)^2 + ctrl*(2*t*(1-t)) + end*t^2`.
    pub open spec fn eval_spec(self, t: P::Scalar) -> P {
        let u = one::<P::Scalar>().sub_spec(t);
        self.start.scale_spec(u.mul_spec(u)).add_spec(
            self.ctrl.scale_spec(num::<P::Scalar>(2).mul_spec(t).mul_spec(u)),
        ).add_spec(self.end.scale_spec(t.mul_spec(t)))
    }

    /// The point of the curve at `t`.
    pub fn eval(&self, t: P::Scalar) -> (r: P)
        ensures
            r == self.eval_spec(t),
    {
        let u = P::Scalar::from_usize(1).sub(t);
        self.start.scale(u.mul(u)).add(
            self.ctrl.scale(P::Scalar::from_usize(2).mul(t).mul(u)),
        ).add(self.end.scale(t.mul(t)))
    }
}

} // verus!
