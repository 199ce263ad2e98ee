//! Cubic Bezier curves: a start, two control points and an end.

use vstd::prelude::*;
use crate::line::LineSegment;
use crate::point::Point;
use crate::quadratic_bezier::QuadraticBezier;
use crate::roots::{
    interior_roots, keep_interior, low_degree_roots, polynomial_roots, solve, solve_low_degree,
};
use crate::scalar::{num, one, strictly_ordered, zero, Scalar};

verus! {

/// The point `a + (b - a)*t` between `a` and `b`.
pub open spec fn mix<P: Point>(a: P, b: P, t: P::Scalar) -> P {
    a.add_spec(b.sub_spec(a).scale_spec(t))
}

/// The cubic Bernstein polynomial with the coefficients `p0` to `p3` at `t`:
/// `p0*(1-t)^3 + p1*3*(1-t)^2*t + p2*3*(1-t)*t^2 + p3*t^3`.
pub open spec fn bernstein3<S: Scalar>(p0: S, p1: S, p2: S, p3: S, t: S) -> S {
    let t2 = t.mul_spec(t);
    let t3 = t2.mul_spec(t);
    let u = one::<S>().sub_spec(t);
    let u2 = u.mul_spec(u);
    let u3 = u2.mul_spec(u);
    p0.mul_spec(u3).add_spec(p1.mul_spec(num::<S>(3)).mul_spec(u2).mul_spec(t)).add_spec(
        p2.mul_spec(num::<S>(3)).mul_spec(u).mul_spec(t2),
    ).add_spec(p3.mul_spec(t3))
}

/// The derivative of the cubic Bernstein polynomial at `t`:
/// `p0*(-3t^2 + 6t - 3) + p1*(9t^2 - 12t + 3) + p2*(-9t^2 + 6t) + p3*3t^2`.
pub open spec fn bernstein3_slope<S: Scalar>(p0: S, p1: S, p2: S, p3: S, t: S) -> S {
    let t2 = t.mul_spec(t);
    let c0 = num::<S>(3).neg_spec().mul_spec(t2).add_spec(num::<S>(6).mul_spec(t)).sub_spec(
        num::<S>(3),
    );
    let c1 = num::<S>(9).mul_spec(t2).sub_spec(num::<S>(12).mul_spec(t)).add_spec(num::<S>(3));
    let c2 = num::<S>(9).neg_spec().mul_spec(t2).add_spec(num::<S>(6).mul_spec(t));
    let c3 = num::<S>(3).mul_spec(t2);
    p0.mul_spec(c0).add_spec(p1.mul_spec(c1)).add_spec(p2.mul_spec(c2)).add_spec(p3.mul_spec(c3))
}

/// The first `n` entries of `s` hold none below this one of them: the running
/// minimum from the front, which a later entry replaces only if it is
/// strictly less.
pub open spec fn least<S: Scalar>(s: Seq<S>, n: nat) -> S
    decreases n,
{
    if n <= 1 {
        s[0]
    } else {
        let m = least(s, (n - 1) as nat);
        if s[n - 1].lt_spec(m) {
            s[n - 1]
        } else {
            m
        }
    }
}

/// The running maximum of the first `n` entries of `s`, which a later entry
/// replaces only if it is strictly greater.
pub open spec fn greatest<S: Scalar>(s: Seq<S>, n: nat) -> S
    decreases n,
{
    if n <= 1 {
        s[0]
    } else {
        let m = greatest(s, (n - 1) as nat);
        if m.lt_spec(s[n - 1]) {
            s[n - 1]
        } else {
            m
        }
    }
}

/// The running minimum and maximum are entries of the sequence.
pub proof fn lemma_extremes_are_entries<S: Scalar>(s: Seq<S>, n: nat)
    requires
        1 <= n <= s.len(),
    ensures
        s.contains(least(s, n)),
        s.contains(greatest(s, n)),
    decreases n,
{
    if n <= 1 {
        assert(s[0] == least(s, n));
        assert(s[0] == greatest(s, n));
    } else {
        lemma_extremes_are_entries(s, (n - 1) as nat);
        assert(s.contains(s[n - 1]));
    }
}

/// Under a strict order none of the first `n` entries is below the running
/// minimum, and none is above the running maximum.
pub proof fn lemma_extremes_bound<S: Scalar>(s: Seq<S>, n: nat, k: int)
    requires
        strictly_ordered::<S>(),
        0 <= k < n <= s.len(),
    ensures
        !s[k].lt_spec(least(s, n)),
        !greatest(s, n).lt_spec(s[k]),
    decreases n,
{
    if n > 1 {
        if k < n - 1 {
            lemma_extremes_bound(s, (n - 1) as nat, k);
        }
    }
}

/// The least and the greatest of the entries of `values`, which is not empty.
pub fn extremes<S: Scalar>(values: &Vec<S>) -> (r: (S, S))
    requires
        values@.len() >= 1,
    ensures
        r.0 == least(values@, values@.len()),
        r.1 == greatest(values@, values@.len()),
        values@.contains(r.0),
        values@.contains(r.1),
{
    let mut lo = values[0];
    let mut hi = values[0];
    let mut i: usize = 1;
    while i < values.len()
        invariant
            1 <= i <= values.len(),
            lo == least(values@, i as nat),
            hi == greatest(values@, i as nat),
        decreases values.len() - i,
    {
        let x = values[i];
        if x.lt(lo) {
            lo = x;
        }
        if hi.lt(x) {
            hi = x;
        }
        i += 1;
    }
    proof {
        lemma_extremes_are_entries(values@, values@.len());
    }
    (lo, hi)
}

/// A cubic Bezier curve.
#[derive(Copy, Clone)]
pub struct CubicBezier<P: Point> {
    pub start: P,
    pub ctrl1: P,
    pub ctrl2: P,
    pub end: P,
}

impl<P: Point> CubicBezier<P> {
    /// The value at `t` in the Bernstein basis:
    /// `start*(1-t)^3 + ctrl1*(3t(1-t)^2) + ctrl2*(3t^2(1-t)) + end*t^3`.
    pub open spec fn eval_spec(self, t: P::Scalar) -> P {
        let u = one::<P::Scalar>().sub_spec(t);
        let three = num::<P::Scalar>(3);
        self.start.scale_spec(u.mul_spec(u).mul_spec(u)).add_spec(
            self.ctrl1.scale_spec(three.mul_spec(t).mul_spec(u).mul_spec(u)),
        ).add_spec(self.ctrl2.scale_spec(three.mul_spec(t).mul_spec(t).mul_spec(u))).add_spec(
            self.end.scale_spec(t.mul_spec(t).mul_spec(t)),
        )
    }

    /// The curve that De Casteljau's three passes cut off before `t`.
    pub open spec fn left_spec(self, t: P::Scalar) -> Self {
        let ab = mix(self.start, self.ctrl1, t);
        let bc = mix(self.ctrl1, self.ctrl2, t);
        let cd = mix(self.ctrl2, self.end, t);
        let abc = mix(ab, bc, t);
        let bcd = mix(bc, cd, t);
        CubicBezier { start: self.start, ctrl1: ab, ctrl2: abc, end: mix(abc, bcd, t) }
    }

    /// The curve that De Casteljau's three passes leave after `t`.
    pub open spec fn right_spec(self, t: P::Scalar) -> Self {
        let ab = mix(self.start, self.ctrl1, t);
        let bc = mix(self.ctrl1, self.ctrl2, t);
        let cd = mix(self.ctrl2, self.end, t);
        let abc = mix(ab, bc, t);
        let bcd = mix(bc, cd, t);
        CubicBezier { start: mix(abc, bcd, t), ctrl1: bcd, ctrl2: cd, end: self.end }
    }

    /// The value at `t` by De Casteljau's three passes: the point at which the
    /// two parts of the curve meet.
    pub open spec fn eval_casteljau_spec(self, t: P::Scalar) -> P {
        self.left_spec(t).end
    }

    /// The coordinate `axis` of the curve at `t`, from the coordinates of the
    /// four points.
    pub open spec fn axis_at_spec(self, t: P::Scalar, axis: int) -> P::Scalar {
        bernstein3(
            self.start.axis_spec(axis),
            self.ctrl1.axis_spec(axis),
            self.ctrl2.axis_spec(axis),
            self.end.axis_spec(axis),
            t,
        )
    }

    /// The coordinate `axis` of the tangent at `t`.
    pub open spec fn tangent_axis_spec(self, t: P::Scalar, axis: int) -> P::Scalar {
        bernstein3_slope(
            self.start.axis_spec(axis),
            self.ctrl1.axis_spec(axis),
            self.ctrl2.axis_spec(axis),
            self.end.axis_spec(axis),
            t,
        )
    }

    /// The derivative curve: three times the differences of neighbouring
    /// points.
    pub open spec fn derivative_spec(self) -> QuadraticBezier<P> {
        let three = num::<P::Scalar>(3);
        QuadraticBezier {
            start: self.ctrl1.sub_spec(self.start).scale_spec(three),
            ctrl: self.ctrl2.sub_spec(self.ctrl1).scale_spec(three),
            end: self.end.sub_spec(self.ctrl2).scale_spec(three),
        }
    }

    /// The parameter of the sample `k` of `nsteps`: `k * 1 / nsteps`.
    pub open spec fn sample_param(nsteps: usize, k: usize) -> P::Scalar {
        num::<P::Scalar>(k).mul_spec(one::<P::Scalar>()).div_spec(num::<P::Scalar>(nsteps))
    }

    /// The length of the chord from sample `k` to the point one step further.
    pub open spec fn chord(self, nsteps: usize, k: usize) -> P::Scalar {
        let t = Self::sample_param(nsteps, k);
        let step = one::<P::Scalar>().div_spec(num::<P::Scalar>(nsteps));
        self.eval_casteljau_spec(t).sub_spec(
            self.eval_casteljau_spec(t.add_spec(step)),
        ).squared_length_spec().sqrt_spec()
    }

    /// The sum of the chords that start at the samples 1 to `k`.
    pub open spec fn chord_sum(self, nsteps: usize, k: nat) -> P::Scalar
        decreases k,
    {
        if k == 0 {
            zero::<P::Scalar>()
        } else {
            self.chord_sum(nsteps, (k - 1) as nat).add_spec(self.chord(nsteps, k as usize))
        }
    }

    /// The length of the polyline over `nsteps` samples: the chords that
    /// start at the samples 1 to `nsteps - 1`.
    pub open spec fn arclen_spec(self, nsteps: usize) -> P::Scalar {
        self.chord_sum(
            nsteps,
            if nsteps == 0 {
                0
            } else {
                (nsteps - 1) as nat
            },
        )
    }

    /// Whether the four points coincide within `tolerance`: the squared
    /// distances from start to end, from start to the first control point and
    /// from end to the second are all at most its square.
    pub open spec fn is_a_point_spec(self, tolerance: P::Scalar) -> bool {
        let bound = tolerance.mul_spec(tolerance);
        &&& self.start.sub_spec(self.end).squared_length_spec().le_spec(bound)
        &&& self.start.sub_spec(self.ctrl1).squared_length_spec().le_spec(bound)
        &&& self.end.sub_spec(self.ctrl2).squared_length_spec().le_spec(bound)
    }

    /// The segment from start to end.
    pub open spec fn baseline_spec(self) -> LineSegment<P> {
        LineSegment { start: self.start, end: self.end }
    }

    /// Whether both control points lie within `tolerance` of the line through
    /// start and end.
    pub open spec fn colinear_spec(self, tolerance: P::Scalar) -> bool {
        &&& self.baseline_spec().distance_spec(self.ctrl1).le_spec(tolerance)
        &&& self.baseline_spec().distance_spec(self.ctrl2).le_spec(tolerance)
    }

    /// Whether start and end count as one point: their squared distance is
    /// below the epsilon.
    pub open spec fn is_closed_spec(self) -> bool {
        self.start.sub_spec(self.end).squared_length_spec().lt_spec(P::Scalar::epsilon_spec())
    }

    /// Whether the curve is a straight line within `tolerance`. A closed curve
    /// is not.
    pub open spec fn is_linear_spec(self, tolerance: P::Scalar) -> bool {
        !self.is_closed_spec() && self.colinear_spec(tolerance)
    }

    /// The coefficients of the polynomial `a*t^3 + b*t^2 + c*t + d` whose roots
    /// are the parameters at which the coordinate `axis` takes `value`.
    pub open spec fn axis_polynomial(self, value: P::Scalar, axis: int) -> (
        P::Scalar,
        P::Scalar,
        P::Scalar,
        P::Scalar,
    ) {
        let p0 = self.start.axis_spec(axis);
        let p1 = self.ctrl1.axis_spec(axis);
        let p2 = self.ctrl2.axis_spec(axis);
        let p3 = self.end.axis_spec(axis);
        let three = num::<P::Scalar>(3);
        (
            p0.neg_spec().add_spec(three.mul_spec(p1)).sub_spec(three.mul_spec(p2)).add_spec(p3),
            three.mul_spec(p0).sub_spec(num::<P::Scalar>(6).mul_spec(p1)).add_spec(
                three.mul_spec(p2),
            ),
            three.neg_spec().mul_spec(p0).add_spec(three.mul_spec(p1)),
            p0.sub_spec(value),
        )
    }

    /// The parameters strictly between zero and one at which the coordinate
    /// `axis` takes `value`. A curve that is one point, or whose control
    /// points lie on its baseline, has none.
    pub open spec fn solve_t_for_axis_spec(self, value: P::Scalar, axis: int) -> Seq<P::Scalar> {
        if self.is_a_point_spec(zero::<P::Scalar>()) || self.colinear_spec(zero::<P::Scalar>()) {
            Seq::empty()
        } else {
            let (a, b, c, d) = self.axis_polynomial(value, axis);
            interior_roots(polynomial_roots(a, b, c, d))
        }
    }

    /// The points whose coordinates are the coefficients of the derivative,
    /// `a*t^2 + b*t + c`, axis by axis.
    pub open spec fn slope_coefficients(self) -> (P, P, P) {
        let d = self.derivative_spec();
        let two = num::<P::Scalar>(2);
        (
            d.start.add_spec(d.ctrl.scale_spec(two.neg_spec())).add_spec(d.end),
            d.start.scale_spec(two.neg_spec()).add_spec(d.ctrl.scale_spec(two)),
            d.start,
        )
    }

    /// The parameters strictly between zero and one at which the coordinate
    /// `axis` of the tangent vanishes.
    pub open spec fn turning_params(self, axis: int) -> Seq<P::Scalar> {
        let (a, b, c) = self.slope_coefficients();
        interior_roots(low_degree_roots(a.axis_spec(axis), b.axis_spec(axis), c.axis_spec(axis)))
    }

    /// The values among which the coordinate `axis` takes its extremes: those
    /// at the turning parameters, then those of start and end.
    pub open spec fn axis_candidates(self, axis: int) -> Seq<P::Scalar> {
        self.turning_params(axis).map_values(
            |t: P::Scalar| self.eval_casteljau_spec(t).axis_spec(axis),
        ).push(self.start.axis_spec(axis)).push(self.end.axis_spec(axis))
    }

    /// The least and the greatest of the candidates of `axis`.
    pub open spec fn axis_bounds(self, axis: int) -> (P::Scalar, P::Scalar) {
        let c = self.axis_candidates(axis);
        (least(c, c.len()), greatest(c, c.len()))
    }

    /// The curve from `start` by way of `ctrl1` and `ctrl2` to `end`.
    pub fn new(start: P, ctrl1: P, ctrl2: P, end: P) -> (r: Self)
        ensures
            r == (CubicBezier { start, ctrl1, ctrl2, end }),
    {
        CubicBezier { start, ctrl1, ctrl2, end }
    }

    /// The point of the curve at `t`, by the Bernstein polynomial. Near zero
    /// and one it loses more to rounding than `eval_casteljau`.
    pub fn eval(&self, t: P::Scalar) -> (r: P)
        ensures
            r == self.eval_spec(t),
    {
        let u = P::Scalar::from_usize(1).sub(t);
        let three = P::Scalar::from_usize(3);
        self.start.scale(u.mul(u).mul(u)).add(
            self.ctrl1.scale(three.mul(t).mul(u).mul(u)),
        ).add(self.ctrl2.scale(three.mul(t).mul(t).mul(u))).add(self.end.scale(t.mul(t).mul(t)))
    }

    /// The point of the curve at `t`, by De Casteljau's three passes.
    pub fn eval_casteljau(&self, t: P::Scalar) -> (r: P)
        ensures
            r == self.eval_casteljau_spec(t),
    {
        let ab = self.start.add(self.ctrl1.sub(self.start).scale(t));
        let bc = self.ctrl1.add(self.ctrl2.sub(self.ctrl1).scale(t));
        let cd = self.ctrl2.add(self.end.sub(self.ctrl2).scale(t));
        let abc = ab.add(bc.sub(ab).scale(t));
        let bcd = bc.add(cd.sub(bc).scale(t));
        abc.add(bcd.sub(abc).scale(t))
    }

    /// The coordinate `axis` of the curve at `t`.
    pub fn axis(&self, t: P::Scalar, axis: usize) -> (r: P::Scalar)
        requires
            axis < P::dim_spec(),
        ensures
            r == self.axis_at_spec(t, axis as int),
    {
        let t2 = t.mul(t);
        let t3 = t2.mul(t);
        let u = P::Scalar::from_usize(1).sub(t);
        let u2 = u.mul(u);
        let u3 = u2.mul(u);
        let three = P::Scalar::from_usize(3);
        self.start.axis(axis).mul(u3).add(self.ctrl1.axis(axis).mul(three).mul(u2).mul(t)).add(
            self.ctrl2.axis(axis).mul(three).mul(u).mul(t2),
        ).add(self.end.axis(axis).mul(t3))
    }

    /// The length of the polyline through `nsteps` evenly spaced samples of
    /// the curve, which approaches the arc length from below as `nsteps`
    /// grows.
    pub fn arclen(&self, nsteps: usize) -> (r: P::Scalar)
        ensures
            r == self.arclen_spec(nsteps),
    {
        let unit = P::Scalar::from_usize(1);
        let count = P::Scalar::from_usize(nsteps);
        let stepsize = unit.div(count);
        let mut total = P::Scalar::from_usize(0);
        let mut k: usize = 1;
        while k < nsteps
            invariant
                1 <= k,
                k <= nsteps || k == 1,
                unit == one::<P::Scalar>(),
                count == num::<P::Scalar>(nsteps),
                stepsize == unit.div_spec(count),
                total == self.chord_sum(nsteps, (k - 1) as nat),
            decreases nsteps - k,
        {
            let t = P::Scalar::from_usize(k).mul(unit).div(count);
            let p1 = self.eval_casteljau(t);
            let p2 = self.eval_casteljau(t.add(stepsize));
            total = total.add(p1.sub(p2).squared_length().sqrt());
            k += 1;
        }
        total
    }

    /// The two curves that the curve falls into at `t`.
    pub fn split(&self, t: P::Scalar) -> (r: (Self, Self))
        ensures
            r.0 == self.left_spec(t),
            r.1 == self.right_spec(t),
            r.0.end == self.eval_casteljau_spec(t),
            r.1.start == self.eval_casteljau_spec(t),
    {
        let ab = self.start.add(self.ctrl1.sub(self.start).scale(t));
        let bc = self.ctrl1.add(self.ctrl2.sub(self.ctrl1).scale(t));
        let cd = self.ctrl2.add(self.end.sub(self.ctrl2).scale(t));
        let abc = ab.add(bc.sub(ab).scale(t));
        let bcd = bc.add(cd.sub(bc).scale(t));
        let mid = abc.add(bcd.sub(abc).scale(t));
        (
            CubicBezier { start: self.start, ctrl1: ab, ctrl2: abc, end: mid },
            CubicBezier { start: mid, ctrl1: bcd, ctrl2: cd, end: self.end },
        )
    }

    /// The derivative curve, whose value at `t` is the tangent at `t`.
    pub fn derivative(&self) -> (r: QuadraticBezier<P>)
        ensures
            r == self.derivative_spec(),
    {
        let three = P::Scalar::from_usize(3);
        QuadraticBezier {
            start: self.ctrl1.sub(self.start).scale(three),
            ctrl: self.ctrl2.sub(self.ctrl1).scale(three),
            end: self.end.sub(self.ctrl2).scale(three),
        }
    }

    /// The coordinate `axis` of the tangent at `t`.
    pub fn dd(&self, t: P::Scalar, axis: usize) -> (r: P::Scalar)
        requires
            axis < P::dim_spec(),
        ensures
            r == self.tangent_axis_spec(t, axis as int),
    {
        let t2 = t.mul(t);
        let three = P::Scalar::from_usize(3);
        let six = P::Scalar::from_usize(6);
        let nine = P::Scalar::from_usize(9);
        let c0 = three.neg().mul(t2).add(six.mul(t)).sub(three);
        let c1 = nine.mul(t2).sub(P::Scalar::from_usize(12).mul(t)).add(three);
        let c2 = nine.neg().mul(t2).add(six.mul(t));
        let c3 = three.mul(t2);
        self.start.axis(axis).mul(c0).add(self.ctrl1.axis(axis).mul(c1)).add(
            self.ctrl2.axis(axis).mul(c2),
        ).add(self.end.axis(axis).mul(c3))
    }

    /// The segment from start to end.
    pub fn baseline(&self) -> (r: LineSegment<P>)
        ensures
            r == self.baseline_spec(),
    {
        LineSegment { start: self.start, end: self.end }
    }

    /// Whether the curve is a straight line within `tolerance`: start and end
    /// differ, and both control points lie within `tolerance` of the line
    /// through them.
    pub fn is_linear(&self, tolerance: P::Scalar) -> (r: bool)
        ensures
            r == self.is_linear_spec(tolerance),
    {
        if self.start.sub(self.end).squared_length().lt(P::Scalar::epsilon()) {
            return false;
        }
        self.are_points_colinear(tolerance)
    }

    /// Whether both control points lie within `tolerance` of the line through
    /// start and end.
    pub fn are_points_colinear(&self, tolerance: P::Scalar) -> (r: bool)
        ensures
            r == self.colinear_spec(tolerance),
    {
        let line = self.baseline();
        line.distance_to_point(self.ctrl1).le(tolerance) && line.distance_to_point(self.ctrl2).le(
            tolerance,
        )
    }

    /// Whether the four points coincide within `tolerance`.
    pub fn is_a_point(&self, tolerance: P::Scalar) -> (r: bool)
        ensures
            r == self.is_a_point_spec(tolerance),
    {
        let bound = tolerance.mul(tolerance);
        self.start.sub(self.end).squared_length().le(bound) && self.start.sub(
            self.ctrl1,
        ).squared_length().le(bound) && self.end.sub(self.ctrl2).squared_length().le(bound)
    }

    /// The real roots of `a*t^3 + b*t^2 + c*t + d`, at most three. The curve
    /// takes no part in them.
    pub fn real_roots(&self, a: P::Scalar, b: P::Scalar, c: P::Scalar, d: P::Scalar) -> (roots:
        Vec<P::Scalar>)
        ensures
            roots@ == polynomial_roots(a, b, c, d),
            roots@.len() <= 3,
    {
        solve(a, b, c, d)
    }

    /// The parameters strictly between zero and one at which the coordinate
    /// `axis` of the curve takes `value`.
    pub fn solve_t_for_axis(&self, value: P::Scalar, axis: usize) -> (r: Vec<P::Scalar>)
        requires
            axis < P::dim_spec(),
        ensures
            r@ == self.solve_t_for_axis_spec(value, axis as int),
            r@.len() <= 3,
    {
        let none = P::Scalar::from_usize(0);
        if self.is_a_point(none) || self.are_points_colinear(none) {
            return Vec::new();
        }
        let p0 = self.start.axis(axis);
        let p1 = self.ctrl1.axis(axis);
        let p2 = self.ctrl2.axis(axis);
        let p3 = self.end.axis(axis);
        let three = P::Scalar::from_usize(3);
        let a = p0.neg().add(three.mul(p1)).sub(three.mul(p2)).add(p3);
        let b = three.mul(p0).sub(P::Scalar::from_usize(6).mul(p1)).add(three.mul(p2));
        let c = three.neg().mul(p0).add(three.mul(p1));
        let d = p0.sub(value);
        let roots = self.real_roots(a, b, c, d);
        keep_interior(&roots)
    }

    /// The values of the coordinate `axis` among which its extremes lie.
    pub fn extremum_candidates(&self, axis: usize) -> (r: Vec<P::Scalar>)
        requires
            axis < P::dim_spec(),
        ensures
            r@ == self.axis_candidates(axis as int),
            2 <= r@.len() <= 4,
    {
        let d = self.derivative();
        let two = P::Scalar::from_usize(2);
        let a = d.start.add(d.ctrl.scale(two.neg())).add(d.end);
        let b = d.start.scale(two.neg()).add(d.ctrl.scale(two));
        let c = d.start;
        let roots = solve_low_degree(a.axis(axis), b.axis(axis), c.axis(axis));
        let params = keep_interior(&roots);
        let mut values: Vec<P::Scalar> = Vec::new();
        let mut i: usize = 0;
        while i < params.len()
            invariant
                axis < P::dim_spec(),
                i <= params.len(),
                values@.len() == i,
                forall|k: int|
                    0 <= k < i ==> values@[k] == self.eval_casteljau_spec(params@[k]).axis_spec(
                        axis as int,
                    ),
            decreases params.len() - i,
        {
            values.push(self.eval_casteljau(params[i]).axis(axis));
            i += 1;
        }
        assert(values@ =~= params@.map_values(
            |t: P::Scalar| self.eval_casteljau_spec(t).axis_spec(axis as int),
        ));
        values.push(self.start.axis(axis));
        values.push(self.end.axis(axis));
        values
    }

    /// The bounding box: for every axis the least and the greatest value that
    /// the coordinate takes at a turning parameter or at an end of the curve.
    pub fn bounding_box(&self) -> (bounds: Vec<(P::Scalar, P::Scalar)>)
        ensures
            bounds@.len() == P::dim_spec(),
            forall|axis: int|
                0 <= axis < P::dim_spec() ==> bounds@[axis] == self.axis_bounds(axis),
            forall|axis: int|
                0 <= axis < P::dim_spec() ==> self.axis_candidates(axis).contains(bounds@[axis].0)
                    && self.axis_candidates(axis).contains(bounds@[axis].1),
    {
        let n = P::dim();
        let mut bounds: Vec<(P::Scalar, P::Scalar)> = Vec::new();
        let mut axis: usize = 0;
        while axis < n
            invariant
                n == P::dim_spec(),
                axis <= n,
                bounds@.len() == axis,
                forall|k: int| 0 <= k < axis ==> bounds@[k] == self.axis_bounds(k),
                forall|k: int|
                    0 <= k < axis ==> self.axis_candidates(k).contains(bounds@[k].0)
                        && self.axis_candidates(k).contains(bounds@[k].1),
            decreases n - axis,
        {
            let candidates = self.extremum_candidates(axis);
            bounds.push(extremes(&candidates));
            axis += 1;
        }
        bounds
    }
}

/// Under a strict order the bounds of an axis enclose all of its candidates:
/// the values at the turning parameters and at the two ends.
pub proof fn lemma_bounds_enclose_candidates<P: Point>(curve: CubicBezier<P>, axis: int, k: int)
    requires
        strictly_ordered::<P::Scalar>(),
        0 <= k < curve.axis_candidates(axis).len(),
    ensures
        !curve.axis_candidates(axis)[k].lt_spec(curve.axis_bounds(axis).0),
        !curve.axis_bounds(axis).1.lt_spec(curve.axis_candidates(axis)[k]),
        !curve.start.axis_spec(axis).lt_spec(curve.axis_bounds(axis).0),
        !curve.axis_bounds(axis).1.lt_spec(curve.start.axis_spec(axis)),
        !curve.end.axis_spec(axis).lt_spec(curve.axis_bounds(axis).0),
        !curve.axis_bounds(axis).1.lt_spec(curve.end.axis_spec(axis)),
{
    let c = curve.axis_candidates(axis);
    lemma_extremes_bound(c, c.len(), k);
    lemma_extremes_bound(c, c.len(), c.len() - 1);
    lemma_extremes_bound(c, c.len(), c.len() - 2);
}

} // verus!
