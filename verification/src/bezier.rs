//! Bezier curves of any degree, evaluated and subdivided by De Casteljau's
//! scheme of repeated linear interpolation.

use vstd::prelude::*;
use crate::point::Point;
use crate::scalar::{num, one, Scalar};

verus! {

/// The point between `a` and `b` at parameter `t`: `a*(1-t) + b*t`.
pub open spec fn lerp<P: Point>(a: P, b: P, t: P::Scalar) -> P {
    a.scale_spec(one::<P::Scalar>().sub_spec(t)).add_spec(b.scale_spec(t))
}

/// One pass of interpolation: each neighbouring pair of `s` gives one point.
pub open spec fn casteljau_step<P: Point>(s: Seq<P>, t: P::Scalar) -> Seq<P> {
    Seq::new(
        if s.len() == 0 {
            0
        } else {
            (s.len() - 1) as nat
        },
        |j: int| lerp(s[j], s[j + 1], t),
    )
}

/// The points that remain after `k` passes over `s`.
pub open spec fn casteljau_level<P: Point>(s: Seq<P>, t: P::Scalar, k: nat) -> Seq<P>
    decreases k,
{
    if k == 0 {
        s
    } else {
        casteljau_step(casteljau_level(s, t, (k - 1) as nat), t)
    }
}

/// The value at `t` of the curve with control points `s`: the one point that
/// is left after `s.len() - 1` passes.
pub open spec fn curve_value<P: Point>(s: Seq<P>, t: P::Scalar) -> P {
    casteljau_level(s, t, (s.len() - 1) as nat)[0]
}

/// The control points of the part of the curve before `t`: the first point of
/// every level.
pub open spec fn left_points<P: Point>(s: Seq<P>, t: P::Scalar) -> Seq<P> {
    Seq::new(s.len(), |k: int| casteljau_level(s, t, k as nat)[0])
}

/// The control points of the part of the curve after `t`: the last point of
/// every level, the deepest level first.
pub open spec fn right_points<P: Point>(s: Seq<P>, t: P::Scalar) -> Seq<P> {
    Seq::new(s.len(), |k: int| casteljau_level(s, t, (s.len() - 1 - k) as nat)[k])
}

/// The control points of the derivative: the differences of neighbouring
/// points, each scaled by the number of control points.
pub open spec fn derivative_points<P: Point>(s: Seq<P>) -> Seq<P> {
    Seq::new(
        if s.len() == 0 {
            0
        } else {
            (s.len() - 1) as nat
        },
        |i: int| s[i + 1].sub_spec(s[i]).scale_spec(num::<P::Scalar>(s.len() as usize)),
    )
}

/// Every pass leaves one point fewer.
pub proof fn lemma_level_len<P: Point>(s: Seq<P>, t: P::Scalar, k: nat)
    requires
        k <= s.len(),
    ensures
        casteljau_level(s, t, k).len() == s.len() - k,
    decreases k,
{
    if k > 0 {
        lemma_level_len(s, t, (k - 1) as nat);
    }
}

/// A Bezier curve with `N` control points, of degree `N - 1`.
#[derive(Clone, Copy)]
pub struct Bezier<P: Point, const N: usize> {
    /// The control points, which alone define the curve.
    pub control_points: [P; N],
}

impl<P: Point, const N: usize> View for Bezier<P, N> {
    type V = Seq<P>;

    open spec fn view(&self) -> Seq<P> {
        self.control_points@
    }
}

impl<P: Point, const N: usize> Bezier<P, N> {
    /// The curve with the given control points, of which there is at least
    /// one.
    pub fn new(control_points: [P; N]) -> (r: Self)
        requires
            N >= 1,
        ensures
            r.control_points == control_points,
            r@ == control_points@,
    {
        Bezier { control_points }
    }

    /// The point of the curve at `t`. Parameters outside of zero to one
    /// extrapolate.
    pub fn eval(&self, t: P::Scalar) -> (r: P)
        requires
            N >= 1,
        ensures
            r == curve_value(self@, t),
    {
        let u = P::Scalar::from_usize(1).sub(t);
        let mut p = self.control_points;
        let mut i: usize = 1;
        while i < N
            invariant
                1 <= i <= N,
                u == one::<P::Scalar>().sub_spec(t),
                forall|j: int|
                    0 <= j <= N - i ==> p@[j] == casteljau_level(self@, t, (i - 1) as nat)[j],
            decreases N - i,
        {
            let ghost prev = p@;
            let mut j: usize = 0;
            while j < N - i
                invariant
                    1 <= i < N,
                    j <= N - i,
                    prev.len() == N,
                    u == one::<P::Scalar>().sub_spec(t),
                    forall|k: int| 0 <= k < j ==> p@[k] == lerp(prev[k], prev[k + 1], t),
                    forall|k: int| j <= k < N ==> p@[k] == prev[k],
                decreases N - i - j,
            {
                p[j] = p[j].scale(u).add(p[j + 1].scale(t));
                j += 1;
            }
            proof {
                lemma_level_len(self@, t, (i - 1) as nat);
            }
            i += 1;
        }
        p[0]
    }

    /// The two curves that the curve falls into at `t`, each with as many
    /// control points as the whole.
    pub fn split(&self, t: P::Scalar) -> (r: (Self, Self))
        requires
            N >= 1,
        ensures
            r.0@ == left_points(self@, t),
            r.1@ == right_points(self@, t),
    {
        let u = P::Scalar::from_usize(1).sub(t);
        let mut left = self.control_points;
        let mut right = self.control_points;
        let mut p = self.control_points;
        let mut i: usize = 1;
        while i < N
            invariant
                1 <= i <= N,
                u == one::<P::Scalar>().sub_spec(t),
                forall|j: int|
                    0 <= j <= N - i ==> p@[j] == casteljau_level(self@, t, (i - 1) as nat)[j],
                forall|k: int| 0 <= k < i - 1 ==> left@[k] == left_points(self@, t)[k],
                forall|k: int| N - i < k < N ==> right@[k] == right_points(self@, t)[k],
            decreases N - i,
        {
            left[i - 1] = p[0];
            right[N - i] = p[N - i];
            let ghost prev = p@;
            let mut j: usize = 0;
            while j < N - i
                invariant
                    1 <= i < N,
                    j <= N - i,
                    prev.len() == N,
                    u == one::<P::Scalar>().sub_spec(t),
                    forall|k: int| 0 <= k < j ==> p@[k] == lerp(prev[k], prev[k + 1], t),
                    forall|k: int| j <= k < N ==> p@[k] == prev[k],
                decreases N - i - j,
            {
                p[j] = p[j].scale(u).add(p[j + 1].scale(t));
                j += 1;
            }
            proof {
                lemma_level_len(self@, t, (i - 1) as nat);
            }
            i += 1;
        }
        left[N - 1] = p[0];
        right[0] = p[0];
        let r = (Bezier { control_points: left }, Bezier { control_points: right });
        proof {
            assert(r.0@ =~= left_points(self@, t));
            assert(r.1@ =~= right_points(self@, t));
        }
        r
    }

    /// The derivative curve, which has one control point fewer.
    pub fn derivative<const M: usize>(&self) -> (r: Bezier<P, M>)
        requires
            M + 1 == N,
        ensures
            r@ == derivative_points(self@),
    {
        let factor = P::Scalar::from_usize(N);
        let mut points: [P; M] = [self.control_points[0];M];
        let mut i: usize = 0;
        while i < M
            invariant
                M + 1 == N,
                i <= M,
                factor == num::<P::Scalar>(N),
                forall|k: int| 0 <= k < i ==> points@[k] == derivative_points(self@)[k],
            decreases M - i,
        {
            points[i] = self.control_points[i + 1].sub(self.control_points[i]).scale(factor);
            i += 1;
        }
        let r = Bezier { control_points: points };
        proof {
            assert(r@ =~= derivative_points(self@));
        }
        r
    }
}

} // verus!
