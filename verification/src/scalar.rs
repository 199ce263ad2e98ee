//! The numeric capability that curves compute with.

use vstd::prelude::*;

verus! {

/// A number type with the arithmetic that curve evaluation and root solving
/// need.
///
/// Each operation comes as a pair: a specification function, which says what
/// the operation yields, and an executable method that returns exactly that
/// value. Nothing is claimed of the algebra: an implementer with rounding
/// arithmetic meets the contract as it stands. The statements that hold only
/// in exact arithmetic take the laws they need as hypotheses.
pub trait Scalar: Copy {
    /// The scalar that stands for the whole number `n`.
    spec fn from_usize_spec(n: usize) -> Self;

    /// The magnitude below which a value counts as zero.
    spec fn epsilon_spec() -> Self;

    /// The ratio of a circle's circumference to its diameter.
    spec fn pi_spec() -> Self;

    spec fn add_spec(self, rhs: Self) -> Self;

    spec fn sub_spec(self, rhs: Self) -> Self;

    spec fn mul_spec(self, rhs: Self) -> Self;

    spec fn div_spec(self, rhs: Self) -> Self;

    spec fn neg_spec(self) -> Self;

    spec fn abs_spec(self) -> Self;

    /// `-1`, `0` or `1` by the sign of the value, as the implementer defines it.
    spec fn signum_spec(self) -> Self;

    spec fn sqrt_spec(self) -> Self;

    /// The value raised to the power `exponent`.
    spec fn powf_spec(self, exponent: Self) -> Self;

    spec fn cos_spec(self) -> Self;

    spec fn acos_spec(self) -> Self;

    /// Numerically equal.
    spec fn eq_spec(self, rhs: Self) -> bool;

    /// Strictly less than.
    spec fn lt_spec(self, rhs: Self) -> bool;

    /// Less than or equal.
    spec fn le_spec(self, rhs: Self) -> bool;

    fn from_usize(n: usize) -> (r: Self)
        ensures
            r == Self::from_usize_spec(n),
    ;

    fn epsilon() -> (r: Self)
        ensures
            r == Self::epsilon_spec(),
    ;

    fn pi() -> (r: Self)
        ensures
            r == Self::pi_spec(),
    ;

    fn add(self, rhs: Self) -> (r: Self)
        ensures
            r == self.add_spec(rhs),
    ;

    fn sub(self, rhs: Self) -> (r: Self)
        ensures
            r == self.sub_spec(rhs),
    ;

    fn mul(self, rhs: Self) -> (r: Self)
        ensures
            r == self.mul_spec(rhs),
    ;

    fn div(self, rhs: Self) -> (r: Self)
        ensures
            r == self.div_spec(rhs),
    ;

    fn neg(self) -> (r: Self)
        ensures
            r == self.neg_spec(),
    ;

    fn abs(self) -> (r: Self)
        ensures
            r == self.abs_spec(),
    ;

    fn signum(self) -> (r: Self)
        ensures
            r == self.signum_spec(),
    ;

    fn sqrt(self) -> (r: Self)
        ensures
            r == self.sqrt_spec(),
    ;

    fn powf(self, exponent: Self) -> (r: Self)
        ensures
            r == self.powf_spec(exponent),
    ;

    fn cos(self) -> (r: Self)
        ensures
            r == self.cos_spec(),
    ;

    fn acos(self) -> (r: Self)
        ensures
            r == self.acos_spec(),
    ;

    fn eq(self, rhs: Self) -> (r: bool)
        ensures
            r == self.eq_spec(rhs),
    ;

    fn lt(self, rhs: Self) -> (r: bool)
        ensures
            r == self.lt_spec(rhs),
    ;

    fn le(self, rhs: Self) -> (r: bool)
        ensures
            r == self.le_spec(rhs),
    ;
}

/// The scalar zero.
pub open spec fn zero<S: Scalar>() -> S {
    S::from_usize_spec(0)
}

/// The scalar one.
pub open spec fn one<S: Scalar>() -> S {
    S::from_usize_spec(1)
}

/// The scalar that stands for the whole number `n`.
pub open spec fn num<S: Scalar>(n: usize) -> S {
    S::from_usize_spec(n)
}

/// Whether `x` counts as zero: its magnitude is below the epsilon.
pub open spec fn near_zero<S: Scalar>(x: S) -> bool {
    x.abs_spec().lt_spec(S::epsilon_spec())
}

/// The order `lt_spec` is strict: nothing is less than itself, and what is
/// less than something less is less. Floating-point numbers are ordered so,
/// the values that are no numbers included.
pub open spec fn strictly_ordered<S: Scalar>() -> bool {
    &&& forall|a: S| !(#[trigger] a.lt_spec(a))
    &&& forall|a: S, b: S, c: S| #[trigger]
        a.lt_spec(b) && #[trigger] b.lt_spec(c) ==> a.lt_spec(c)
}

/// Tests whether `x` counts as zero.
pub fn is_near_zero<S: Scalar>(x: S) -> (r: bool)
    ensures
        r == near_zero(x),
{
    x.abs().lt(S::epsilon())
}

} // verus!
