//! Parametric polynomial curves over an abstract scalar.
//!
//! The curve types are generic over a [`point::Point`], whose coordinates are
//! values of a [`scalar::Scalar`]. Every operation is a pure function of its
//! arguments, and every contract states its result over the specification
//! operations of those two traits, so that it holds of rounding arithmetic
//! as it stands.
//!
//! - [`scalar`] and [`point`]: the two capabilities; [`point_generic`]: the
//!   point stored as an array.
//! - [`bezier`]: curves of any degree, by De Casteljau's scheme.
//! - [`cubic_bezier`], with [`quadratic_bezier`] and [`line`]: the cubic
//!   curve, its evaluation, subdivision, tangent, arc length, linearity and
//!   bounding box.
//! - [`roots`]: real roots of polynomials up to degree three.
//! - [`bspline`]: the validation of B-spline data and the knot search.
//! - [`exact`], over [`algebra`]: what all of this computes where the
//!   arithmetic is exact.

pub mod scalar;
pub mod point;
pub mod point_generic;
pub mod bezier;
pub mod roots;
pub mod line;
pub mod quadratic_bezier;
pub mod cubic_bezier;
pub mod bspline;
pub mod algebra;
pub mod exact;
