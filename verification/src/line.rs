//! Straight line segments.

use vstd::prelude::*;
use crate::point::Point;
use crate::scalar::{zero, Scalar};

verus! {

/// The running sum `0 + a[0]*b[0] + ... + a[n-1]*b[n-1]` over the coordinates
/// of two points, added in that order.
pub open spec fn dot<P: Point>(a: P, b: P, n: nat) -> P::Scalar
    decreases n,
{
    if n == 0 {
        zero::<P::Scalar>()
    } else {
        dot(a, b, (n - 1) as nat).add_spec(a.axis_spec(n - 1).mul_spec(b.axis_spec(n - 1)))
    }
}

/// The inner product of two points.
pub fn inner_product<P: Point>(a: &P, b: &P) -> (r: P::Scalar)
    ensures
        r == dot(*a, *b, P::dim_spec() as nat),
{
    let n = P::dim();
    let mut total = P::Scalar::from_usize(0);
    let mut i: usize = 0;
    while i < n
        invariant
            n == P::dim_spec(),
            i <= n,
            total == dot(*a, *b, i as nat),
        decreases n - i,
    {
        total = total.add(a.axis(i).mul(b.axis(i)));
        i += 1;
    }
    total
}

/// The segment from `start` to `end`.
#[derive(Clone, Copy)]
pub struct LineSegment<P: Point> {
    pub start: P,
    pub end: P,
}

impl<P: Point> LineSegment<P> {
    /// The segment from `start` to `end`.
    pub fn new(start: P, end: P) -> (r: Self)
        ensures
            r.start == start,
            r.end == end,
    {
        LineSegment { start, end }
    }

    /// The point of the line through the segment that lies nearest to `p`:
    /// `start + dir * ((p - start) . dir / |dir|^2)`, where `dir` is
    /// `end - start`.
    pub open spec fn foot_spec(self, p: P) -> P {
        let dir = self.end.sub_spec(self.start);
        let along = dot(p.sub_spec(self.start), dir, P::dim_spec() as nat).div_spec(
            dir.squared_length_spec(),
        );
        self.start.add_spec(dir.scale_spec(along))
    }

    /// The distance from `p` to the line through the segment.
    pub open spec fn distance_spec(self, p: P) -> P::Scalar {
        p.sub_spec(self.foot_spec(p)).squared_length_spec().sqrt_spec()
    }

    /// The perpendicular distance from `p` to the line through the segment.
    /// The two ends of the segment are taken to differ.
    pub fn distance_to_point(&self, p: P) -> (r: P::Scalar)
        ensures
            r == self.distance_spec(p),
    {
        let dir = self.end.sub(self.start);
        let rel = p.sub(self.start);
        let along = inner_product(&rel, &dir).div(dir.squared_length());
        let foot = self.start.add(dir.scale(along));
        p.sub(foot).squared_length().sqrt()
    }
}

} // verus!
