//! B-splines: the validation of their defining data, and the search for the
//! knot span of a parameter.

use vstd::prelude::*;
use crate::point::Point;
use crate::scalar::Scalar;

verus! {

/// Whether `control_points` points and `knots` knots define a B-spline of
/// degree `degree`: there is at least one point more than the degree, and the
/// knots number the points, the degree and one together.
pub open spec fn valid_counts(degree: int, control_points: int, knots: int) -> bool {
    control_points > degree && knots == control_points + degree + 1
}

/// Wherever `value` is less than an entry of `data` it is less than every
/// later entry too, as it is where `data` does not decrease.
pub open spec fn splits_once<F: Scalar>(data: Seq<F>, value: F) -> bool {
    forall|i: int, j: int|
        0 <= i <= j < data.len() && value.lt_spec(#[trigger] data[i]) ==> value.lt_spec(
            #[trigger] data[j],
        )
}

/// The index that a search gave, or the length where it gave none.
pub open spec fn found_or_len(found: Option<usize>, len: int) -> int {
    match found {
        Some(i) => i as int,
        None => len,
    }
}

/// A B-spline of a given degree over borrowed control points and knots.
pub struct BSpline<'a, P: Point, F: Scalar> {
    degree: usize,
    control_points: &'a [P],
    knots: &'a [F],
}

impl<'a, P: Point, F: Scalar> Clone for BSpline<'a, P, F> {
    fn clone(&self) -> (r: Self)
        ensures
            r == *self,
    {
        proof {
            use_type_invariant(self);
        }
        BSpline { degree: self.degree, control_points: self.control_points, knots: self.knots }
    }
}

impl<'a, P: Point, F: Scalar> BSpline<'a, P, F> {
    #[verifier::type_invariant]
    spec fn counts_fit(self) -> bool {
        valid_counts(self.degree as int, self.control_points@.len() as int, self.knots@.len() as int)
    }

    /// The degree of the polynomial pieces.
    pub closed spec fn degree_spec(self) -> usize {
        self.degree
    }

    /// The control points.
    pub closed spec fn control_points_spec(self) -> Seq<P> {
        self.control_points@
    }

    /// The knot vector.
    pub closed spec fn knots_spec(self) -> Seq<F> {
        self.knots@
    }

    /// The B-spline of degree `degree` over `control_points` and `knots`, or
    /// nothing where their counts do not fit the degree.
    pub fn new(degree: usize, control_points: &'a [P], knots: &'a [F]) -> (r: Option<Self>)
        ensures
            r is Some <==> valid_counts(
                degree as int,
                control_points@.len() as int,
                knots@.len() as int,
            ),
            r is Some ==> r->0.degree_spec() == degree && r->0.control_points_spec()
                == control_points@ && r->0.knots_spec() == knots@,
    {
        if control_points.len() <= degree {
            None
        } else if knots.len() <= degree || knots.len() - degree - 1 != control_points.len() {
            None
        } else {
            Some(BSpline { degree, control_points, knots })
        }
    }

    /// The control points.
    pub fn control_points(&self) -> (r: &'a [P])
        ensures
            r@ == self.control_points_spec(),
            r@.len() > self.degree_spec(),
    {
        proof {
            use_type_invariant(self);
        }
        self.control_points
    }

    /// The knots.
    pub fn knots(&self) -> (r: &'a [F])
        ensures
            r@ == self.knots_spec(),
            r@.len() == self.control_points_spec().len() + self.degree_spec() + 1,
    {
        proof {
            use_type_invariant(self);
        }
        self.knots
    }

    /// The least and the greatest parameter at which the curve is defined:
    /// the knot at the degree, and the knot as far from the end.
    pub fn knot_domain(&self) -> (r: (F, F))
        ensures
            self.degree_spec() < self.knots_spec().len() - self.degree_spec(),
            r.0 == self.knots_spec()[self.degree_spec() as int],
            r.1 == self.knots_spec()[self.knots_spec().len() - 1 - self.degree_spec()],
    {
        proof {
            use_type_invariant(self);
        }
        (self.knots[self.degree], self.knots[self.knots.len() - 1 - self.degree])
    }

    /// Searches `data` by bisection for an entry greater than `value`.
    ///
    /// The index found holds an entry greater than `value`, and the entry
    /// before it is not greater. Where nothing is found, `data` is empty or
    /// its last entry is not greater. Where `value` splits `data` once, as it
    /// does for sorted data, no entry before the one found is greater: the
    /// index is that of the first greater entry, and nothing is found only
    /// where no entry is greater.
    pub fn upper_bounds(&self, data: &[F], value: F) -> (r: Option<usize>)
        ensures
            match r {
                Some(i) => i < data@.len() && value.lt_spec(data@[i as int]),
                None => true,
            },
            found_or_len(r, data@.len() as int) == 0 || !value.lt_spec(
                data@[found_or_len(r, data@.len() as int) - 1],
            ),
            splits_once(data@, value) ==> forall|k: int|
                0 <= k < found_or_len(r, data@.len() as int) ==> !value.lt_spec(data@[k]),
    {
        let mut first: usize = 0;
        let len: usize = data.len();
        let mut count: usize = len;
        while count > 0
            invariant
                len == data@.len(),
                first + count <= data@.len(),
                first == 0 || !value.lt_spec(data@[first - 1]),
                first + count == data@.len() || value.lt_spec(data@[first + count]),
            decreases count,
        {
            let step: usize = count / 2;
            let it: usize = first + step;
            if !value.lt(data[it]) {
                first = it + 1;
                count -= step + 1;
            } else {
                count = step;
            }
        }
        if first == len {
            None
        } else {
            Some(first)
        }
    }
}

} // verus!
