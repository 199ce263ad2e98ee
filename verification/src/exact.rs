//! What the curves compute where the scalar arithmetic is exact.
//!
//! The contracts of the curve types hold of every scalar, rounding ones
//! included, and so say nothing of the algebra. The statements here take an
//! interpretation of the scalars in the real numbers under which the ring
//! operations are exact, and a point type whose operations work coordinate
//! by coordinate, and state what then follows.

use vstd::prelude::*;
use crate::algebra::{
    cubic, cubic_slope, lemma_commute, lemma_complete_square, lemma_distribute,
    lemma_distribute_difference, lemma_left_part, lemma_quadratic_in_powers, lemma_right_part,
    lemma_mix, lemma_slope, lemma_three_passes, lemma_unit_factors, lemma_weights_reordered,
    lemma_zero_product, mix_real, quadratic, three_passes, two_passes,
};
use crate::bezier::{
    casteljau_level, casteljau_step, curve_value, left_points, lemma_level_len, lerp, right_points,
};
use crate::cubic_bezier::CubicBezier;
use crate::point::Point;
use crate::point_generic::{lemma_coords_exist, PointN};
use crate::roots::{discriminant, linear_root, low_degree_roots, quadratic_roots};
use crate::scalar::{near_zero, one, zero, Scalar};

verus! {

/// Under `value` the ring operations of the scalar are those of the reals.
pub open spec fn exact<S: Scalar>(value: spec_fn(S) -> real) -> bool {
    &&& forall|n: usize| value(#[trigger] S::from_usize_spec(n)) == n as real
    &&& forall|a: S, b: S| value(#[trigger] a.add_spec(b)) == value(a) + value(b)
    &&& forall|a: S, b: S| value(#[trigger] a.sub_spec(b)) == value(a) - value(b)
    &&& forall|a: S, b: S| value(#[trigger] a.mul_spec(b)) == value(a) * value(b)
    &&& forall|a: S| value(#[trigger] a.neg_spec()) == -value(a)
}

/// The operations of the point type work on each coordinate by itself.
pub open spec fn coordinatewise<P: Point>() -> bool {
    &&& forall|a: P, b: P, i: int|
        0 <= i < P::dim_spec() ==> #[trigger] a.add_spec(b).axis_spec(i) == a.axis_spec(
            i,
        ).add_spec(b.axis_spec(i))
    &&& forall|a: P, b: P, i: int|
        0 <= i < P::dim_spec() ==> #[trigger] a.sub_spec(b).axis_spec(i) == a.axis_spec(
            i,
        ).sub_spec(b.axis_spec(i))
    &&& forall|a: P, f: P::Scalar, i: int|
        0 <= i < P::dim_spec() ==> #[trigger] a.scale_spec(f).axis_spec(i) == a.axis_spec(
            i,
        ).mul_spec(f)
}

/// The array-backed point works coordinate by coordinate.
pub proof fn lemma_point_n_coordinatewise<T: Scalar, const N: usize>()
    ensures
        coordinatewise::<PointN<T, N>>(),
{
    assert forall|a: PointN<T, N>, b: PointN<T, N>, i: int| 0 <= i < N implies #[trigger] a.add_spec(
        b,
    ).axis_spec(i) == a.axis_spec(i).add_spec(b.axis_spec(i)) by {
        lemma_coords_exist::<T, N>(a, a.sum_coords(b));
    }
    assert forall|a: PointN<T, N>, b: PointN<T, N>, i: int| 0 <= i < N implies #[trigger] a.sub_spec(
        b,
    ).axis_spec(i) == a.axis_spec(i).sub_spec(b.axis_spec(i)) by {
        lemma_coords_exist::<T, N>(a, a.difference_coords(b));
    }
    assert forall|a: PointN<T, N>, f: T, i: int| 0 <= i < N implies #[trigger] a.scale_spec(
        f,
    ).axis_spec(i) == a.axis_spec(i).mul_spec(f) by {
        lemma_coords_exist::<T, N>(a, a.scaled_coords(f));
    }
}

/// The value of the coordinate `axis` of `p`.
pub open spec fn coord<P: Point>(value: spec_fn(P::Scalar) -> real, p: P, axis: int) -> real {
    value(p.axis_spec(axis))
}

/// The cubic polynomial of the coordinate `axis` of the four points of
/// `curve`.
pub open spec fn cubic_of<P: Point>(
    value: spec_fn(P::Scalar) -> real,
    curve: CubicBezier<P>,
    axis: int,
    t: real,
) -> real {
    cubic(
        coord(value, curve.start, axis),
        coord(value, curve.ctrl1, axis),
        coord(value, curve.ctrl2, axis),
        coord(value, curve.end, axis),
        t,
    )
}

/// Evaluation in the Bernstein basis yields the cubic polynomial.
pub proof fn lemma_eval_is_cubic<P: Point>(
    value: spec_fn(P::Scalar) -> real,
    curve: CubicBezier<P>,
    t: P::Scalar,
    axis: int,
)
    requires
        exact(value),
        coordinatewise::<P>(),
        0 <= axis < P::dim_spec(),
    ensures
        coord(value, curve.eval_spec(t), axis) == cubic_of(value, curve, axis, value(t)),
{
}

/// Evaluation by De Casteljau's passes yields the cubic polynomial.
pub proof fn lemma_eval_casteljau_is_cubic<P: Point>(
    value: spec_fn(P::Scalar) -> real,
    curve: CubicBezier<P>,
    t: P::Scalar,
    axis: int,
)
    requires
        exact(value),
        coordinatewise::<P>(),
        0 <= axis < P::dim_spec(),
    ensures
        coord(value, curve.eval_casteljau_spec(t), axis) == cubic_of(value, curve, axis, value(t)),
{
    let p0 = coord(value, curve.start, axis);
    let p1 = coord(value, curve.ctrl1, axis);
    let p2 = coord(value, curve.ctrl2, axis);
    let p3 = coord(value, curve.end, axis);
    assert(coord(value, curve.eval_casteljau_spec(t), axis) == three_passes(
        p0,
        p1,
        p2,
        p3,
        value(t),
    ));
    lemma_three_passes(p0, p1, p2, p3, value(t));
}

/// The single-coordinate evaluation yields the cubic polynomial.
pub proof fn lemma_axis_is_cubic<P: Point>(
    value: spec_fn(P::Scalar) -> real,
    curve: CubicBezier<P>,
    t: P::Scalar,
    axis: int,
)
    requires
        exact(value),
    ensures
        value(curve.axis_at_spec(t, axis)) == cubic_of(value, curve, axis, value(t)),
{
    lemma_weights_reordered(
        coord(value, curve.start, axis),
        coord(value, curve.ctrl1, axis),
        coord(value, curve.ctrl2, axis),
        coord(value, curve.end, axis),
        value(t),
    );
}

/// The ways of evaluating a cubic curve agree: the Bernstein form, De
/// Casteljau's passes and the single-coordinate form give the same
/// coordinates.
pub proof fn lemma_eval_methods_agree<P: Point>(
    value: spec_fn(P::Scalar) -> real,
    curve: CubicBezier<P>,
    t: P::Scalar,
    axis: int,
)
    requires
        exact(value),
        coordinatewise::<P>(),
        0 <= axis < P::dim_spec(),
    ensures
        coord(value, curve.eval_spec(t), axis) == coord(value, curve.eval_casteljau_spec(t), axis),
        coord(value, curve.eval_spec(t), axis) == value(curve.axis_at_spec(t, axis)),
{
    lemma_eval_is_cubic(value, curve, t, axis);
    lemma_eval_casteljau_is_cubic(value, curve, t, axis);
    lemma_axis_is_cubic(value, curve, t, axis);
}

/// The derivative curve at `t` is the tangent at `t`, which is the slope of
/// the cubic polynomial.
pub proof fn lemma_derivative_is_tangent<P: Point>(
    value: spec_fn(P::Scalar) -> real,
    curve: CubicBezier<P>,
    t: P::Scalar,
    axis: int,
)
    requires
        exact(value),
        coordinatewise::<P>(),
        0 <= axis < P::dim_spec(),
    ensures
        coord(value, curve.derivative_spec().eval_spec(t), axis) == value(
            curve.tangent_axis_spec(t, axis),
        ),
        value(curve.tangent_axis_spec(t, axis)) == cubic_slope(
            coord(value, curve.start, axis),
            coord(value, curve.ctrl1, axis),
            coord(value, curve.ctrl2, axis),
            coord(value, curve.end, axis),
            value(t),
        ),
{
    let p0 = coord(value, curve.start, axis);
    let p1 = coord(value, curve.ctrl1, axis);
    let p2 = coord(value, curve.ctrl2, axis);
    let p3 = coord(value, curve.end, axis);
    assert(coord(value, curve.derivative_spec().eval_spec(t), axis) == quadratic(
        (p1 - p0) * (3 as real),
        (p2 - p1) * (3 as real),
        (p3 - p2) * (3 as real),
        value(t),
    ));
    lemma_slope(p0, p1, p2, p3, value(t));
}

/// The four points of a cubic curve as the control points of a curve of any
/// degree.
pub open spec fn four_points<P: Point>(curve: CubicBezier<P>) -> Seq<P> {
    seq![curve.start, curve.ctrl1, curve.ctrl2, curve.end]
}

/// The levels of De Casteljau's scheme over four points, coordinate by
/// coordinate: the passes of interpolation over the reals.
pub proof fn lemma_four_point_levels<P: Point>(
    value: spec_fn(P::Scalar) -> real,
    curve: CubicBezier<P>,
    t: P::Scalar,
    axis: int,
)
    requires
        exact(value),
        coordinatewise::<P>(),
        0 <= axis < P::dim_spec(),
    ensures
        ({
            let s = four_points(curve);
            let x = value(t);
            let p0 = coord(value, curve.start, axis);
            let p1 = coord(value, curve.ctrl1, axis);
            let p2 = coord(value, curve.ctrl2, axis);
            let p3 = coord(value, curve.end, axis);
            &&& casteljau_level(s, t, 0) == s
            &&& coord(value, casteljau_level(s, t, 1)[0], axis) == mix_real(p0, p1, x)
            &&& coord(value, casteljau_level(s, t, 1)[2], axis) == mix_real(p2, p3, x)
            &&& coord(value, casteljau_level(s, t, 2)[0], axis) == two_passes(p0, p1, p2, x)
            &&& coord(value, casteljau_level(s, t, 2)[1], axis) == two_passes(p1, p2, p3, x)
            &&& coord(value, casteljau_level(s, t, 3)[0], axis) == three_passes(p0, p1, p2, p3, x)
        }),
{
    let s = four_points(curve);
    let x = value(t);
    let first = casteljau_level(s, t, 1);
    let second = casteljau_level(s, t, 2);
    let third = casteljau_level(s, t, 3);
    assert(casteljau_level(s, t, 0) == s);
    lemma_level_len(s, t, 0);
    lemma_level_len(s, t, 1);
    lemma_level_len(s, t, 2);
    lemma_level_len(s, t, 3);
    assert(first == casteljau_step(s, t));
    assert(second == casteljau_step(first, t));
    assert(third == casteljau_step(second, t));
    let p0 = coord(value, s[0], axis);
    let p1 = coord(value, s[1], axis);
    let p2 = coord(value, s[2], axis);
    let p3 = coord(value, s[3], axis);
    lemma_mix(p0, p1, x);
    lemma_mix(p1, p2, x);
    lemma_mix(p2, p3, x);
    assert(coord(value, first[0], axis) == mix_real(p0, p1, x));
    assert(coord(value, first[1], axis) == mix_real(p1, p2, x));
    assert(coord(value, first[2], axis) == mix_real(p2, p3, x));
    lemma_mix(mix_real(p0, p1, x), mix_real(p1, p2, x), x);
    lemma_mix(mix_real(p1, p2, x), mix_real(p2, p3, x), x);
    assert(coord(value, second[0], axis) == two_passes(p0, p1, p2, x));
    assert(coord(value, second[1], axis) == two_passes(p1, p2, p3, x));
    lemma_mix(two_passes(p0, p1, p2, x), two_passes(p1, p2, p3, x), x);
    assert(coord(value, third[0], axis) == three_passes(p0, p1, p2, p3, x));
}

/// A curve of any degree over four control points is the cubic curve over
/// them: it has the same values, and it is split into the same parts.
pub proof fn lemma_four_points_are_cubic<P: Point>(
    value: spec_fn(P::Scalar) -> real,
    curve: CubicBezier<P>,
    t: P::Scalar,
    axis: int,
    k: int,
)
    requires
        exact(value),
        coordinatewise::<P>(),
        0 <= axis < P::dim_spec(),
        0 <= k < 4,
    ensures
        coord(value, curve_value(four_points(curve), t), axis) == cubic_of(
            value,
            curve,
            axis,
            value(t),
        ),
        coord(value, left_points(four_points(curve), t)[k], axis) == coord(
            value,
            four_points(curve.left_spec(t))[k],
            axis,
        ),
        coord(value, right_points(four_points(curve), t)[k], axis) == coord(
            value,
            four_points(curve.right_spec(t))[k],
            axis,
        ),
{
    let p0 = coord(value, curve.start, axis);
    let p1 = coord(value, curve.ctrl1, axis);
    let p2 = coord(value, curve.ctrl2, axis);
    let p3 = coord(value, curve.end, axis);
    let x = value(t);
    let left = curve.left_spec(t);
    let right = curve.right_spec(t);
    lemma_four_point_levels(value, curve, t, axis);
    lemma_three_passes(p0, p1, p2, p3, x);
    assert(coord(value, left.ctrl1, axis) == mix_real(p0, p1, x));
    assert(coord(value, left.ctrl2, axis) == two_passes(p0, p1, p2, x));
    assert(coord(value, left.end, axis) == three_passes(p0, p1, p2, p3, x));
    assert(coord(value, right.start, axis) == three_passes(p0, p1, p2, p3, x));
    assert(coord(value, right.ctrl1, axis) == two_passes(p1, p2, p3, x));
    assert(coord(value, right.ctrl2, axis) == mix_real(p2, p3, x));
}

/// The parameter of the whole curve that the parameter `s` of the part after
/// `t` stands for: `t + s*(1 - t)`.
pub open spec fn behind<S: Scalar>(t: S, s: S) -> S {
    t.add_spec(s.mul_spec(one::<S>().sub_spec(t)))
}

/// The two parts into which a cubic curve is split at `t` trace the curve:
/// the first at `s` is the curve at `s*t`, the second at `s` is the curve at
/// `t + s*(1 - t)`.
pub proof fn lemma_split_traces_curve<P: Point>(
    value: spec_fn(P::Scalar) -> real,
    curve: CubicBezier<P>,
    t: P::Scalar,
    s: P::Scalar,
    axis: int,
)
    requires
        exact(value),
        coordinatewise::<P>(),
        0 <= axis < P::dim_spec(),
    ensures
        coord(value, curve.left_spec(t).eval_spec(s), axis) == coord(
            value,
            curve.eval_spec(s.mul_spec(t)),
            axis,
        ),
        coord(value, curve.right_spec(t).eval_spec(s), axis) == coord(
            value,
            curve.eval_spec(behind(t, s)),
            axis,
        ),
{
    let p0 = coord(value, curve.start, axis);
    let p1 = coord(value, curve.ctrl1, axis);
    let p2 = coord(value, curve.ctrl2, axis);
    let p3 = coord(value, curve.end, axis);
    let x = value(t);
    let y = value(s);
    let left = curve.left_spec(t);
    let right = curve.right_spec(t);
    assert(coord(value, left.ctrl1, axis) == mix_real(p0, p1, x));
    assert(coord(value, left.ctrl2, axis) == two_passes(p0, p1, p2, x));
    assert(coord(value, left.end, axis) == three_passes(p0, p1, p2, p3, x));
    assert(coord(value, right.start, axis) == three_passes(p0, p1, p2, p3, x));
    assert(coord(value, right.ctrl1, axis) == two_passes(p1, p2, p3, x));
    assert(coord(value, right.ctrl2, axis) == mix_real(p2, p3, x));
    lemma_eval_is_cubic(value, left, s, axis);
    lemma_eval_is_cubic(value, right, s, axis);
    lemma_eval_is_cubic(value, curve, s.mul_spec(t), axis);
    lemma_eval_is_cubic(value, curve, behind(t, s), axis);
    lemma_left_part(p0, p1, p2, p3, x, y);
    lemma_right_part(p0, p1, p2, p3, x, y);
}

/// At zero every level of De Casteljau's scheme starts at the first control
/// point, and at one every level ends at the last.
pub proof fn lemma_level_ends_exact<P: Point>(
    value: spec_fn(P::Scalar) -> real,
    s: Seq<P>,
    k: nat,
    axis: int,
)
    requires
        exact(value),
        coordinatewise::<P>(),
        0 <= axis < P::dim_spec(),
        k < s.len(),
    ensures
        coord(value, casteljau_level(s, zero::<P::Scalar>(), k)[0], axis) == coord(
            value,
            s[0],
            axis,
        ),
        coord(value, casteljau_level(s, one::<P::Scalar>(), k)[s.len() - 1 - k], axis) == coord(
            value,
            s[s.len() - 1],
            axis,
        ),
    decreases k,
{
    if k > 0 {
        let j = (k - 1) as nat;
        let z = zero::<P::Scalar>();
        let o = one::<P::Scalar>();
        lemma_level_ends_exact(value, s, j, axis);
        lemma_level_len(s, z, j);
        lemma_level_len(s, o, j);
        let at_zero = casteljau_level(s, z, j);
        let at_one = casteljau_level(s, o, j);
        let last = s.len() - 1 - k;
        lemma_unit_factors(coord(value, at_zero[0], axis), value(o.sub_spec(z)));
        lemma_unit_factors(coord(value, at_zero[1], axis), value(z));
        lemma_unit_factors(coord(value, at_one[last], axis), value(o.sub_spec(o)));
        lemma_unit_factors(coord(value, at_one[last + 1], axis), value(o));
        assert(casteljau_level(s, z, k)[0] == lerp(at_zero[0], at_zero[1], z));
        assert(casteljau_level(s, o, k)[last] == lerp(at_one[last], at_one[last + 1], o));
    }
}

/// A curve of any degree starts at its first control point and ends at its
/// last.
pub proof fn lemma_endpoints<P: Point>(value: spec_fn(P::Scalar) -> real, s: Seq<P>, axis: int)
    requires
        exact(value),
        coordinatewise::<P>(),
        0 <= axis < P::dim_spec(),
        s.len() >= 1,
    ensures
        coord(value, curve_value(s, zero::<P::Scalar>()), axis) == coord(value, s[0], axis),
        coord(value, curve_value(s, one::<P::Scalar>()), axis) == coord(
            value,
            s[s.len() - 1],
            axis,
        ),
{
    lemma_level_ends_exact(value, s, (s.len() - 1) as nat, axis);
}

/// Under `value` the scalar is an ordered field with square roots: beside
/// the ring operations, division, the square root of what is not negative,
/// the absolute value and the order are those of the reals, and the epsilon
/// is positive.
pub open spec fn exact_field<S: Scalar>(value: spec_fn(S) -> real) -> bool {
    &&& exact(value)
    &&& forall|a: S, b: S|
        value(b) != 0 as real ==> value(#[trigger] a.div_spec(b)) * value(b) == value(a)
    &&& forall|a: S|
        value(a) >= 0 as real ==> value(#[trigger] a.sqrt_spec()) * value(a.sqrt_spec()) == value(
            a,
        )
    &&& forall|a: S|
        value(#[trigger] a.abs_spec()) == if value(a) >= 0 as real {
            value(a)
        } else {
            -value(a)
        }
    &&& forall|a: S, b: S| #[trigger] a.lt_spec(b) <==> value(a) < value(b)
    &&& value(S::epsilon_spec()) > 0 as real
}

/// The root of the linear polynomial is a root: `c*r + d` vanishes.
pub proof fn lemma_linear_root<S: Scalar>(value: spec_fn(S) -> real, c: S, d: S)
    requires
        exact_field(value),
        !near_zero(c),
    ensures
        value(c) * value(linear_root(c, d)) + value(d) == 0 as real,
{
    lemma_commute(value(c), value(linear_root(c, d)));
}

/// Where the discriminant is positive the two roots of the quadratic are
/// roots: `b*r^2 + c*r + d` vanishes at both.
pub proof fn lemma_quadratic_roots<S: Scalar>(value: spec_fn(S) -> real, b: S, c: S, d: S, i: int)
    requires
        exact_field(value),
        !near_zero(b),
        zero::<S>().lt_spec(discriminant(b, c, d)),
        0 <= i < 2,
    ensures
        quadratic_roots(b, c, d).len() == 2,
        ({
            let r = value(quadratic_roots(b, c, d)[i]);
            value(b) * (r * r) + value(c) * r + value(d) == 0 as real
        }),
{
    let vb = value(b);
    let vc = value(c);
    let vd = value(d);
    let q = value(discriminant(b, c, d).sqrt_spec());
    let r = value(quadratic_roots(b, c, d)[i]);
    let t = r * (2 as real * vb);
    let g = vb * (r * r) + vc * r + vd;
    assert(q * q == vc * vc - 4 as real * vb * vd);
    assert(t == -vc - q || t == -vc + q);
    lemma_complete_square(vb, vc, vd, r, t);
    lemma_distribute(vc, q, vc + q);
    lemma_commute(vc + q, vc);
    lemma_commute(vc + q, q);
    lemma_distribute(vc, q, vc);
    lemma_distribute(vc, q, q);
    lemma_distribute_difference(vc, q, vc - q);
    lemma_commute(vc - q, vc);
    lemma_commute(vc - q, q);
    lemma_distribute_difference(vc, q, vc);
    lemma_distribute_difference(vc, q, q);
    lemma_commute(vc, q);
    if t == -vc - q {
        assert(t * t == (vc + q) * (vc + q)) by (nonlinear_arith)
            requires
                t == -vc - q,
        ;
        assert(vc * t == -(vc * (vc + q))) by (nonlinear_arith)
            requires
                t == -vc - q,
        ;
    } else {
        assert(t * t == (vc - q) * (vc - q)) by (nonlinear_arith)
            requires
                t == -vc + q,
        ;
        assert(vc * t == -(vc * (vc - q))) by (nonlinear_arith)
            requires
                t == -vc + q,
        ;
    }
    assert((4 as real * vb) * g == 0 as real);
    lemma_zero_product(4 as real * vb, g);
}

/// Where the discriminant counts as zero, the one root of the quadratic is
/// where its slope vanishes: `2*b*r + c` is zero.
pub proof fn lemma_double_root<S: Scalar>(value: spec_fn(S) -> real, b: S, c: S, d: S)
    requires
        exact_field(value),
        !near_zero(b),
        !zero::<S>().lt_spec(discriminant(b, c, d)),
        near_zero(discriminant(b, c, d)),
    ensures
        quadratic_roots(b, c, d).len() == 1,
        (2 as real * value(b)) * value(quadratic_roots(b, c, d)[0]) + value(c) == 0 as real,
{
    lemma_commute(2 as real * value(b), value(quadratic_roots(b, c, d)[0]));
}

/// The coordinates of the three points of `slope_coefficients` are the
/// coefficients of the tangent: at `t` its coordinate is `a*t^2 + b*t + c`.
/// So the turning parameters, which are roots of that quadratic, are where
/// the tangent's coordinate vanishes.
pub proof fn lemma_slope_coefficients<P: Point>(
    value: spec_fn(P::Scalar) -> real,
    curve: CubicBezier<P>,
    t: P::Scalar,
    axis: int,
)
    requires
        exact(value),
        coordinatewise::<P>(),
        0 <= axis < P::dim_spec(),
    ensures
        ({
            let (a, b, c) = curve.slope_coefficients();
            let x = value(t);
            value(curve.tangent_axis_spec(t, axis)) == coord(value, a, axis) * (x * x) + coord(
                value,
                b,
                axis,
            ) * x + coord(value, c, axis)
        }),
{
    let p0 = coord(value, curve.start, axis);
    let p1 = coord(value, curve.ctrl1, axis);
    let p2 = coord(value, curve.ctrl2, axis);
    let p3 = coord(value, curve.end, axis);
    let d0 = (p1 - p0) * (3 as real);
    let d1 = (p2 - p1) * (3 as real);
    let d2 = (p3 - p2) * (3 as real);
    let (a, b, c) = curve.slope_coefficients();
    lemma_derivative_is_tangent(value, curve, t, axis);
    lemma_slope(p0, p1, p2, p3, value(t));
    lemma_quadratic_in_powers(d0, d1, d2, value(t));
    assert(coord(value, a, axis) == d0 + d1 * (-(2 as real)) + d2);
    assert(coord(value, b, axis) == d0 * (-(2 as real)) + d1 * (2 as real));
    assert(coord(value, c, axis) == d0);
}

/// Where the tangent's coordinate is a quadratic with a positive
/// discriminant, it vanishes at both of the quadratic's roots: the bounding
/// box looks for the extremes of the coordinate at its turning points.
pub proof fn lemma_tangent_vanishes_at_roots<P: Point>(
    value: spec_fn(P::Scalar) -> real,
    curve: CubicBezier<P>,
    axis: int,
    i: int,
)
    requires
        exact_field(value),
        coordinatewise::<P>(),
        0 <= axis < P::dim_spec(),
        0 <= i < 2,
        ({
            let (a, b, c) = curve.slope_coefficients();
            &&& !near_zero(a.axis_spec(axis))
            &&& zero::<P::Scalar>().lt_spec(
                discriminant(a.axis_spec(axis), b.axis_spec(axis), c.axis_spec(axis)),
            )
        }),
    ensures
        ({
            let (a, b, c) = curve.slope_coefficients();
            let roots = low_degree_roots(a.axis_spec(axis), b.axis_spec(axis), c.axis_spec(axis));
            &&& roots.len() == 2
            &&& value(curve.tangent_axis_spec(roots[i], axis)) == 0 as real
        }),
{
    let (a, b, c) = curve.slope_coefficients();
    let roots = low_degree_roots(a.axis_spec(axis), b.axis_spec(axis), c.axis_spec(axis));
    lemma_quadratic_roots(value, a.axis_spec(axis), b.axis_spec(axis), c.axis_spec(axis), i);
    lemma_slope_coefficients(value, curve, roots[i], axis);
}

} // verus!
