//! The point capability: a fixed-dimension vector of scalars.

use vstd::prelude::*;
use crate::scalar::Scalar;

verus! {

/// A point of a fixed number of coordinates.
///
/// As with [`Scalar`], each operation is a specification function paired with
/// a method that returns exactly its value.
pub trait Point: Copy {
    type Scalar: Scalar;

    /// The number of coordinates.
    spec fn dim_spec() -> usize;

    spec fn add_spec(self, rhs: Self) -> Self;

    spec fn sub_spec(self, rhs: Self) -> Self;

    /// The point with every coordinate multiplied by `factor`.
    spec fn scale_spec(self, factor: Self::Scalar) -> Self;

    /// The coordinate at `index`.
    spec fn axis_spec(self, index: int) -> Self::Scalar;

    /// The sum of the squares of the coordinates.
    spec fn squared_length_spec(self) -> Self::Scalar;

    fn dim() -> (r: usize)
        ensures
            r == Self::dim_spec(),
    ;

    fn add(self, rhs: Self) -> (r: Self)
        ensures
            r == self.add_spec(rhs),
    ;

    fn sub(self, rhs: Self) -> (r: Self)
        ensures
            r == self.sub_spec(rhs),
    ;

    fn scale(self, factor: Self::Scalar) -> (r: Self)
        ensures
            r == self.scale_spec(factor),
    ;

    fn axis(&self, index: usize) -> (r: Self::Scalar)
        requires
            index < Self::dim_spec(),
        ensures
            r == self.axis_spec(index as int),
    ;

    fn squared_length(&self) -> (r: Self::Scalar)
        ensures
            r == self.squared_length_spec(),
    ;
}

} // verus!
